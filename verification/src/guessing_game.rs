//! A guessing game: the player guesses a secret number between 1 and 100
//! until a guess hits it.
//!
//! The game is kept apart from the console. A caller draws the secret with
//! [`secret_number`], hands each line that the player types to [`respond`],
//! shows what comes back and stops once [`Feedback::ends_game`] says so.
//!
//! The game is played under one of two sets of [`Rules`]: either every number
//! is held against the secret, or a number outside the range of the secret is
//! turned away first.

use crate::decimal::{number_of, parse_number};
use rand::Rng;
use vstd::prelude::*;

verus! {

/// The smallest number that the secret can be.
pub const LOWEST: u32 = 1;

/// The largest number that the secret can be.
pub const HIGHEST: u32 = 100;

/// The rules that a game is played under.
#[derive(Clone, Copy, Debug, PartialEq, Eq, Structural)]
pub enum Rules {
    /// Every number is a guess.
    AnyNumber,
    /// Only a number between `LOWEST` and `HIGHEST` is a guess.
    InRange,
}

/// What the game says to one line of input.
#[derive(Clone, Copy, Debug, PartialEq, Eq, Structural)]
pub enum Feedback {
    /// The line is no number.
    NotANumber,
    /// The guess is a number outside the accepted range.
    OutOfRange,
    /// The guess is below the secret.
    TooSmall,
    /// The guess is above the secret.
    TooBig,
    /// The guess is the secret.
    Win,
}

/// One turn of the game: the number that the player guessed, if the line
/// was one, and what the game says to it.
#[derive(Clone, Copy, Debug)]
pub struct Turn {
    pub guess: Option<u32>,
    pub feedback: Feedback,
}

/// `n` lies in the range that the secret is drawn from.
pub open spec fn in_range(n: u32) -> bool {
    LOWEST <= n <= HIGHEST
}

/// How `guess` stands to `secret`.
pub open spec fn compared(guess: u32, secret: u32) -> Feedback {
    if guess < secret {
        Feedback::TooSmall
    } else if guess > secret {
        Feedback::TooBig
    } else {
        Feedback::Win
    }
}

/// What the game says to the number `guess`: where the rules ask for it, a
/// guess outside the range is turned away; any other is held against
/// `secret`.
pub open spec fn judged(rules: Rules, guess: u32, secret: u32) -> Feedback {
    if rules == Rules::InRange && !in_range(guess) {
        Feedback::OutOfRange
    } else {
        compared(guess, secret)
    }
}

/// The turn that the text `guess` makes: it has to write a number, which is
/// then judged.
pub open spec fn turn_of(rules: Rules, secret: u32, guess: Seq<char>) -> Turn {
    match number_of(guess) {
        Some(n) => Turn { guess: Some(n), feedback: judged(rules, n, secret) },
        None => Turn { guess: None, feedback: Feedback::NotANumber },
    }
}

/// The text that the game shows for `feedback`.
pub open spec fn text_of(feedback: Feedback) -> Seq<char> {
    match feedback {
        Feedback::NotANumber => "That was not a valid number!"@,
        Feedback::OutOfRange => "Your guess is outside of the accepted range."@,
        Feedback::TooSmall => "Too small!"@,
        Feedback::TooBig => "Too big!"@,
        Feedback::Win => "You win!!!"@,
    }
}

/// What `str::trim` makes of the text `s`: `s` without the white space at
/// its start and at its end, white space being what Unicode calls so.
pub uninterp spec fn trimmed(s: Seq<char>) -> Seq<char>;

/// With a secret in range, a turn wins exactly when its text writes the
/// secret, under either set of rules.
pub proof fn lemma_win_iff_secret(rules: Rules, secret: u32, guess: Seq<char>)
    requires
        in_range(secret),
    ensures
        turn_of(rules, secret, guess).feedback == Feedback::Win <==> number_of(guess) == Some(
            secret,
        ),
{
}

/// A turn names the number that was guessed, and says that there was none
/// exactly when the text wrote none.
pub proof fn lemma_turn_names_guess(rules: Rules, secret: u32, guess: Seq<char>)
    ensures
        turn_of(rules, secret, guess).guess == number_of(guess),
        turn_of(rules, secret, guess).feedback == Feedback::NotANumber <==> number_of(guess)
            is None,
{
}

/// The two sets of rules differ on the numbers outside the range only, which
/// one of them turns away and the other holds against the secret.
pub proof fn lemma_rules_agree_in_range(guess: u32, secret: u32)
    ensures
        in_range(guess) ==> judged(Rules::InRange, guess, secret) == judged(
            Rules::AnyNumber,
            guess,
            secret,
        ),
        !in_range(guess) ==> judged(Rules::InRange, guess, secret) == Feedback::OutOfRange,
        judged(Rules::AnyNumber, guess, secret) == compared(guess, secret),
{
}

impl Feedback {
    /// The game is over once a guess wins.
    pub fn ends_game(self) -> (over: bool)
        ensures
            over == (self == Feedback::Win),
    {
        match self {
            Feedback::Win => true,
            _ => false,
        }
    }
}

/// Calls `Rng::random_range` of the rand crate on the generator of the
/// thread, which `rand::rng` hands out, with the inclusive range from `low`
/// to `high`. The call panics on an empty range, which `requires` leaves
/// out. What it returns lies in the range; nothing more is known of it, and
/// two calls may differ.
///
/// The generator is seeded from the operating system when a thread first
/// asks for it, and `rand::rng` panics where the system has no random bytes
/// to give.
#[verifier::external_body]
fn random_between(low: u32, high: u32) -> (n: u32)
    requires
        low <= high,
    ensures
        low <= n <= high,
{
    rand::rng().random_range(low..=high)
}

/// Calls `str::trim`, which returns the part of `s` between its leading and
/// its trailing white space.
#[verifier::external_body]
fn trim(s: &str) -> (r: &str)
    ensures
        r@ == trimmed(s@),
{
    s.trim()
}

/// Draws the secret: a number between `LOWEST` and `HIGHEST`, both included.
pub fn secret_number() -> (secret: u32)
    ensures
        in_range(secret),
{
    random_between(LOWEST, HIGHEST)
}

/// Holds `guess` against `secret`.
pub fn compare_guess(guess: u32, secret: u32) -> (feedback: Feedback)
    ensures
        feedback == compared(guess, secret),
{
    if guess < secret {
        Feedback::TooSmall
    } else if guess > secret {
        Feedback::TooBig
    } else {
        Feedback::Win
    }
}

/// Judges the number `guess` under `rules`: where they ask for it, a guess
/// outside the range is turned away; any other is held against `secret`.
pub fn judge(rules: Rules, guess: u32, secret: u32) -> (feedback: Feedback)
    ensures
        feedback == judged(rules, guess, secret),
{
    match rules {
        Rules::InRange => {
            if guess < LOWEST || guess > HIGHEST {
                return Feedback::OutOfRange;
            }
        },
        Rules::AnyNumber => {},
    }
    compare_guess(guess, secret)
}

/// Plays one turn on the text `guess`, which holds nothing but what the
/// player meant as a number.
pub fn take_turn(rules: Rules, secret: u32, guess: &str) -> (turn: Turn)
    ensures
        turn == turn_of(rules, secret, guess@),
{
    match parse_number(guess) {
        Some(n) => Turn { guess: Some(n), feedback: judge(rules, n, secret) },
        None => Turn { guess: None, feedback: Feedback::NotANumber },
    }
}

/// The number that the player typed on `line`, which may hold white space
/// around it, such as the line's end.
pub fn parse_guess(line: &str) -> (guess: Option<u32>)
    ensures
        guess == number_of(trimmed(line@)),
{
    parse_number(trim(line))
}

/// Plays one turn on a line as the player typed it.
pub fn respond(rules: Rules, secret: u32, line: &str) -> (turn: Turn)
    ensures
        turn == turn_of(rules, secret, trimmed(line@)),
{
    take_turn(rules, secret, trim(line))
}

/// The text to show for `feedback`.
pub fn message(feedback: Feedback) -> (text: &'static str)
    ensures
        text@ == text_of(feedback),
{
    match feedback {
        Feedback::NotANumber => "That was not a valid number!",
        Feedback::OutOfRange => "Your guess is outside of the accepted range.",
        Feedback::TooSmall => "Too small!",
        Feedback::TooBig => "Too big!",
        Feedback::Win => "You win!!!",
    }
}

} // verus!

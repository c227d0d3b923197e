//! Terminal control operations and user commands.
//!
//! `OpsCommand` names the two escape-sequence primitives the repaint uses;
//! the caller turns each into bytes on the wire with `ansi_str`.
//! `UserCommand` is the closed set of console commands; `parse_command`
//! turns one trimmed input line into a command exactly once, at the
//! boundary, so that nothing downstream ever re-interprets raw text.

use vstd::prelude::*;
use vstd::string::StrSliceExecFns;
use vstd::string::StringExecFns;
use crate::datetime::{is_digit, digit_val};

verus! {

/// The two terminal primitives the repaint algorithm needs.
#[derive(Clone, Copy, Debug, PartialEq, Eq, Structural)]
pub enum OpsCommandType {
    /// Erase from the cursor to the end of the current line.
    ClearToEnd,
    /// Move the cursor to the start of the previous line.
    UpOneLine,
}

/// A terminal control operation, ready to be written as an escape sequence.
#[derive(Clone, Copy, Debug, PartialEq, Eq, Structural)]
pub struct OpsCommand(pub OpsCommandType);

impl OpsCommand {
    /// The ANSI escape sequence that performs this operation.
    pub fn ansi_str(&self) -> (r: &'static str)
        ensures
            self.0 == OpsCommandType::ClearToEnd ==> r@ == "\u{1b}[K"@,
            self.0 == OpsCommandType::UpOneLine ==> r@ == "\u{1b}[F"@,
    {
        match self.0 {
            OpsCommandType::ClearToEnd => "\u{1b}[K",
            OpsCommandType::UpOneLine => "\u{1b}[F",
        }
    }
}

/// The closed set of console commands. Numeric arguments arrive already
/// parsed; a line that fits no form at all becomes `Unknown`.
#[derive(Clone, Copy, Debug, PartialEq, Eq, Structural)]
pub enum UserCommand {
    /// `start`: begin a Work phase when Idle.
    Start,
    /// `stop`: back to Idle.
    Stop,
    /// `short`: jump to a ShortBreak phase.
    Short,
    /// `long`: jump to a LongBreak phase.
    Long,
    /// `next`: advance the phase machine by hand.
    Next,
    /// `work <minutes>`: set the Work phase length.
    WorkDuration(u64),
    /// `short <minutes>`: set the ShortBreak phase length.
    ShortDuration(u64),
    /// `long <minutes>`: set the LongBreak phase length.
    LongDuration(u64),
    /// `interval <count>`: set how many Work completions separate
    /// LongBreaks.
    Interval(u32),
    /// `pause`: stop ticking and repainting until `resume`.
    Pause,
    /// `resume`: tick and repaint again.
    Resume,
    /// Anything unrecognized, including malformed numeric arguments.
    Unknown,
}

/// Do spaces and tabs separate words here?
pub open spec fn is_space(c: char) -> bool {
    c == ' ' || c == '\t'
}

/// One scanning step: a space closes the word in progress, any other
/// character extends it. The state is (words so far, word in progress).
pub open spec fn tokens_step(acc: (Seq<Seq<char>>, Seq<char>), c: char) -> (Seq<Seq<char>>, Seq<
    char,
>) {
    if is_space(c) {
        if acc.1.len() > 0 {
            (acc.0.push(acc.1), Seq::empty())
        } else {
            acc
        }
    } else {
        (acc.0, acc.1.push(c))
    }
}

/// The scanning state after reading all of `s`.
pub open spec fn tokens_rec(s: Seq<char>) -> (Seq<Seq<char>>, Seq<char>)
    decreases s.len(),
{
    if s.len() == 0 {
        (Seq::empty(), Seq::empty())
    } else {
        tokens_step(tokens_rec(s.drop_last()), s.last())
    }
}

/// The whitespace-separated words of `s`, in order.
pub open spec fn spec_tokens(s: Seq<char>) -> Seq<Seq<char>> {
    let state = tokens_rec(s);
    if state.1.len() > 0 {
        state.0.push(state.1)
    } else {
        state.0
    }
}

/// Is `w` a non-empty run of decimal digits?
pub open spec fn all_digits(w: Seq<char>) -> bool {
    w.len() > 0 && forall|i: int| 0 <= i < w.len() ==> is_digit(#[trigger] w[i])
}

/// The numeric value of a digit string.
pub open spec fn dec_value(w: Seq<char>) -> int
    decreases w.len(),
{
    if w.len() == 0 {
        0
    } else {
        10 * dec_value(w.drop_last()) + digit_val(w.last())
    }
}

/// A digit string's value is never negative.
proof fn lemma_dec_value_nonneg(w: Seq<char>)
    requires
        forall|i: int| 0 <= i < w.len() ==> is_digit(#[trigger] w[i]),
    ensures
        dec_value(w) >= 0,
    decreases w.len(),
{
    if w.len() > 0 {
        lemma_dec_value_nonneg(w.drop_last());
    }
}

/// Reading more digits never shrinks the value.
proof fn lemma_dec_value_take_le(w: Seq<char>, k: int)
    requires
        forall|i: int| 0 <= i < w.len() ==> is_digit(#[trigger] w[i]),
        0 <= k <= w.len(),
    ensures
        dec_value(w.take(k)) <= dec_value(w),
    decreases w.len(),
{
    if k == w.len() {
        assert(w.take(k) =~= w);
    } else {
        assert(w.take(k) =~= w.drop_last().take(k));
        lemma_dec_value_take_le(w.drop_last(), k);
        lemma_dec_value_nonneg(w.drop_last());
    }
}

/// Split a line into whitespace-separated words.
pub fn tokenize(s: &str) -> (r: Vec<String>)
    ensures
        r@.map_values(|w: String| w@) == spec_tokens(s@),
{
    let n = s.unicode_len();
    let mut words: Vec<String> = Vec::new();
    let mut start: usize = 0;
    let mut i: usize = 0;
    while i < n
        invariant
            n == s@.len(),
            start <= i <= n,
            tokens_rec(s@.take(i as int)).0 == words@.map_values(|w: String| w@),
            tokens_rec(s@.take(i as int)).1 == s@.subrange(start as int, i as int),
        decreases n - i,
    {
        proof {
            assert(s@.take(i as int + 1).drop_last() =~= s@.take(i as int));
            assert(s@.take(i as int + 1).last() == s@[i as int]);
        }
        let c = s.get_char(i);
        if c == ' ' || c == '\t' {
            if i > start {
                let word = s.substring_char(start, i).to_owned();
                words.push(word);
                proof {
                    assert(tokens_rec(s@.take(i as int + 1)).0 =~~= words@.map_values(
                        |w: String| w@,
                    ));
                }
            }
            start = i + 1;
            proof {
                assert(tokens_rec(s@.take(i as int + 1)).1 =~= s@.subrange(
                    start as int,
                    i as int + 1,
                ));
            }
        } else {
            proof {
                assert(tokens_rec(s@.take(i as int + 1)).1 =~= s@.subrange(
                    start as int,
                    i as int + 1,
                ));
            }
        }
        i = i + 1;
    }
    proof {
        assert(s@.take(n as int) =~= s@);
    }
    if i > start {
        let word = s.substring_char(start, i).to_owned();
        words.push(word);
        proof {
            assert(spec_tokens(s@) =~~= words@.map_values(|w: String| w@));
        }
    }
    words
}

/// Parse a word as an unsigned number: `Some` exactly when the word is
/// all digits and its value fits.
pub fn parse_u64(w: &str) -> (r: Option<u64>)
    ensures
        r is Some <==> all_digits(w@) && dec_value(w@) <= u64::MAX,
        r is Some ==> r->0 == dec_value(w@),
{
    let n = w.unicode_len();
    if n == 0 {
        return None;
    }
    let mut acc: u64 = 0;
    let mut i: usize = 0;
    while i < n
        invariant
            0 < n == w@.len(),
            i <= n,
            forall|j: int| 0 <= j < i as int ==> is_digit(#[trigger] w@[j]),
            acc == dec_value(w@.take(i as int)),
        decreases n - i,
    {
        proof {
            assert(w@.take(i as int + 1).drop_last() =~= w@.take(i as int));
            assert(w@.take(i as int + 1).last() == w@[i as int]);
        }
        let c = w.get_char(i);
        let d: u64;
        if c >= '0' && c <= '9' {
            d = (c as u32 - '0' as u32) as u64;
        } else {
            return None;
        }
        if acc > (u64::MAX - d) / 10 {
            proof {
                if all_digits(w@) {
                    lemma_dec_value_take_le(w@, i as int + 1);
                }
            }
            return None;
        }
        acc = acc * 10 + d;
        i = i + 1;
    }
    proof {
        assert(w@.take(n as int) =~= w@);
    }
    Some(acc)
}

/// The command a token list means.
pub open spec fn spec_parse_tokens(ts: Seq<Seq<char>>) -> UserCommand {
    if ts.len() == 1 {
        if ts[0] == "start"@ {
            UserCommand::Start
        } else if ts[0] == "stop"@ {
            UserCommand::Stop
        } else if ts[0] == "short"@ {
            UserCommand::Short
        } else if ts[0] == "long"@ {
            UserCommand::Long
        } else if ts[0] == "next"@ {
            UserCommand::Next
        } else if ts[0] == "pause"@ {
            UserCommand::Pause
        } else if ts[0] == "resume"@ {
            UserCommand::Resume
        } else {
            UserCommand::Unknown
        }
    } else if ts.len() == 2 {
        let w = ts[1];
        if ts[0] == "work"@ && all_digits(w) && dec_value(w) <= u64::MAX {
            UserCommand::WorkDuration(dec_value(w) as u64)
        } else if ts[0] == "short"@ && all_digits(w) && dec_value(w) <= u64::MAX {
            UserCommand::ShortDuration(dec_value(w) as u64)
        } else if ts[0] == "long"@ && all_digits(w) && dec_value(w) <= u64::MAX {
            UserCommand::LongDuration(dec_value(w) as u64)
        } else if ts[0] == "interval"@ && all_digits(w) && dec_value(w) <= u32::MAX {
            UserCommand::Interval(dec_value(w) as u32)
        } else {
            UserCommand::Unknown
        }
    } else {
        UserCommand::Unknown
    }
}

/// The command a raw input line means.
pub open spec fn spec_parse_command(s: Seq<char>) -> UserCommand {
    spec_parse_tokens(spec_tokens(s))
}

/// Does this word's view equal the literal's?
fn word_is(w: &String, lit: &str) -> (r: bool)
    ensures
        r == (w@ == lit@),
{
    let l = lit.to_owned();
    *w == l
}

/// Parse one trimmed input line into a command. Every recognized verb and
/// well-formed numeric argument yields its command; everything else,
/// including numbers that do not fit, yields `Unknown`.
pub fn parse_command(s: &str) -> (r: UserCommand)
    ensures
        r == spec_parse_command(s@),
{
    let words = tokenize(s);
    let ghost ts = spec_tokens(s@);
    if words.len() == 1 {
        proof {
            assert(ts[0] == words@[0]@);
        }
        let w = &words[0];
        if word_is(w, "start") {
            UserCommand::Start
        } else if word_is(w, "stop") {
            UserCommand::Stop
        } else if word_is(w, "short") {
            UserCommand::Short
        } else if word_is(w, "long") {
            UserCommand::Long
        } else if word_is(w, "next") {
            UserCommand::Next
        } else if word_is(w, "pause") {
            UserCommand::Pause
        } else if word_is(w, "resume") {
            UserCommand::Resume
        } else {
            UserCommand::Unknown
        }
    } else if words.len() == 2 {
        proof {
            assert(ts[0] == words@[0]@);
            assert(ts[1] == words@[1]@);
        }
        let verb = &words[0];
        let arg = &words[1];
        if word_is(verb, "work") {
            match parse_u64(arg.as_str()) {
                Some(m) => UserCommand::WorkDuration(m),
                None => UserCommand::Unknown,
            }
        } else if word_is(verb, "short") {
            match parse_u64(arg.as_str()) {
                Some(m) => UserCommand::ShortDuration(m),
                None => UserCommand::Unknown,
            }
        } else if word_is(verb, "long") {
            match parse_u64(arg.as_str()) {
                Some(m) => UserCommand::LongDuration(m),
                None => UserCommand::Unknown,
            }
        } else if word_is(verb, "interval") {
            match parse_u64(arg.as_str()) {
                Some(m) => {
                    if m <= 0xffffffff {
                        UserCommand::Interval(m as u32)
                    } else {
                        UserCommand::Unknown
                    }
                },
                None => UserCommand::Unknown,
            }
        } else {
            UserCommand::Unknown
        }
    } else {
        UserCommand::Unknown
    }
}

} // verus!

//! A single flashcard: a question/answer pair plus spaced-repetition
//! scheduling state, and the review rule that updates that state.
//!
//! Calendar dates are day numbers (days counted from a fixed epoch, as a
//! `u32`); the next review day is their sum with the interval, so it is kept
//! as a `u64` and can never wrap. The ease factor is kept in hundredths of a
//! unit (`250` stands for 2.5), which represents every value the update rule
//! can produce exactly.

use vstd::prelude::*;
use vstd::string::StrSliceExecFns;

verus! {

/// Unicode whitespace, as `char::is_whitespace` decides it.
pub uninterp spec fn whitespace_char(c: char) -> bool;

/// Relies on `char::is_whitespace` of std: the Unicode `White_Space` property,
/// a function of the character alone.
#[verifier::external_body]
fn exec_whitespace_char(c: char) -> (r: bool)
    ensures
        r == whitespace_char(c),
{
    c.is_whitespace()
}

/// Relies on `uuid::Uuid::new_v4`: a freshly generated random identifier,
/// handed back as its 128-bit value. Nothing is promised of which value
/// comes back.
#[verifier::external_body]
fn fresh_id() -> (r: u128)
{
    uuid::Uuid::new_v4().as_u128()
}

/// A string is blank when every character is whitespace; in particular the
/// empty string is blank. This is exactly when trimming leaves nothing.
pub open spec fn blank(s: Seq<char>) -> bool {
    forall|i: int| 0 <= i < s.len() ==> whitespace_char(s[i])
}

/// Decides `blank(s@)` by scanning the characters.
pub fn is_blank(s: &str) -> (r: bool)
    ensures
        r == blank(s@),
{
    let n: usize = s.unicode_len();
    let mut i: usize = 0;
    while i < n
        invariant
            n == s@.len(),
            0 <= i <= n,
            forall|j: int| 0 <= j < i ==> whitespace_char(s@[j]),
        decreases n - i,
    {
        if !exec_whitespace_char(s.get_char(i)) {
            return false;
        }
        i += 1;
    }
    true
}

/// Why a card could not be built: its question or its answer was blank.
#[derive(Debug, Clone, Copy, PartialEq, Eq, Structural)]
pub enum FlashCardError {
    EmptyQuestion,
    EmptyAnswer,
}

/// One question/answer pair with its scheduling state.
pub struct FlashCard {
    /// Globally unique identifier, fixed at creation.
    pub id: u128,
    pub question: String,
    pub answer: String,
    /// Ease factor in hundredths: `250` is an ease of 2.5. Never below 130.
    pub ef_centi: u32,
    /// Consecutive successful reviews; reset to 0 by a failed review.
    pub repetitions: u32,
    /// Days until the next review.
    pub interval: u32,
    /// Day number of the most recent review (or of creation).
    pub last_review_day: u32,
    /// Day number on which the card is next due:
    /// always `last_review_day + interval`.
    pub next_review_day: u64,
}

/// The ease adjustment, in hundredths, that a rating of `quality` asks for:
/// `0.1 - (5 - q) * (0.08 + (5 - q) * 0.02)` scaled by 100.
pub open spec fn ease_delta_centi(quality: u32) -> int {
    let n = 5 - quality as int;
    10 - n * (8 + n * 2)
}

/// The ease factor after a successful review: the adjusted value, floored at
/// 1.3 (130 hundredths) and capped at what a `u32` holds.
pub open spec fn adjusted_ease_centi(ef_centi: u32, quality: u32) -> int {
    let cand = ef_centi + ease_delta_centi(quality);
    if cand < 130 {
        130
    } else if cand > u32::MAX {
        u32::MAX as int
    } else {
        cand
    }
}

/// The interval after a successful review, read from the previous interval:
/// 0 becomes 1, 1 becomes 6, and any other value is multiplied by the ease
/// factor current before the review and rounded to the nearest day
/// (halves up), capped at what a `u32` holds.
pub open spec fn grown_interval(prev: u32, ef_centi: u32) -> int {
    if prev == 0 {
        1
    } else if prev == 1 {
        6
    } else {
        let rounded = (prev * ef_centi + 50) / 100;
        if rounded > u32::MAX {
            u32::MAX as int
        } else {
            rounded
        }
    }
}

/// The card state after rating a review with `quality` on day `today`.
///
/// A failed recall (`quality < 3`) resets the repetition count, sets the
/// interval to one day and leaves the ease factor untouched; a successful one
/// grows the interval from its previous value, applies the ease adjustment
/// and counts the repetition. Either way both review dates move to `today`.
pub open spec fn spec_review(c: FlashCard, quality: u32, today: u32) -> FlashCard {
    if quality < 3 {
        FlashCard {
            id: c.id,
            question: c.question,
            answer: c.answer,
            ef_centi: c.ef_centi,
            repetitions: 0,
            interval: 1,
            last_review_day: today,
            next_review_day: (today + 1) as u64,
        }
    } else {
        let ni = grown_interval(c.interval, c.ef_centi);
        FlashCard {
            id: c.id,
            question: c.question,
            answer: c.answer,
            ef_centi: adjusted_ease_centi(c.ef_centi, quality) as u32,
            repetitions: if c.repetitions == u32::MAX { u32::MAX } else { (c.repetitions + 1) as u32 },
            interval: ni as u32,
            last_review_day: today,
            next_review_day: (today + ni) as u64,
        }
    }
}

impl FlashCard {
    /// A card's standing invariant: the ease factor never sits below 1.3,
    /// the next review day is exactly the last one plus the interval, and
    /// question and answer are not blank.
    pub open spec fn wf(self) -> bool {
        &&& self.ef_centi >= 130
        &&& self.next_review_day == self.last_review_day + self.interval
        &&& !blank(self.question@)
        &&& !blank(self.answer@)
    }

    /// Builds a fresh card due immediately: ease 2.5, no repetitions,
    /// interval 0, both review dates equal to `today`. A blank question is
    /// rejected as `EmptyQuestion` (checked first), a blank answer as
    /// `EmptyAnswer`; exactly the non-blank pairs are accepted.
    pub fn new(question: String, answer: String, today: u32) -> (r: Result<FlashCard, FlashCardError>)
        ensures
            (match r {
                Ok(c) => !blank(question@) && !blank(answer@)
                    && c.question == question
                    && c.answer == answer
                    && c.ef_centi == 250
                    && c.repetitions == 0
                    && c.interval == 0
                    && c.last_review_day == today
                    && c.next_review_day == today as u64
                    && c.wf(),
                Err(e) => if blank(question@) {
                    e == FlashCardError::EmptyQuestion
                } else {
                    blank(answer@) && e == FlashCardError::EmptyAnswer
                },
            }),
    {
        if is_blank(question.as_str()) {
            return Err(FlashCardError::EmptyQuestion);
        }
        if is_blank(answer.as_str()) {
            return Err(FlashCardError::EmptyAnswer);
        }
        Ok(FlashCard {
            id: fresh_id(),
            question,
            answer,
            ef_centi: 250,
            repetitions: 0,
            interval: 0,
            last_review_day: today,
            next_review_day: today as u64,
        })
    }

    /// Applies one review rated `quality` on day `today`; the new state is
    /// exactly `spec_review` of the old one.
    pub fn review(&mut self, quality: u32, today: u32)
        ensures
            *final(self) == spec_review(*old(self), quality, today),
    {
        if quality < 3 {
            self.repetitions = 0;
            self.interval = 1;
        } else {
            let prev: u32 = self.interval;
            let ni: u32 = if prev == 0 {
                1
            } else if prev == 1 {
                6
            } else {
                proof {
                    assert((prev as int) * (self.ef_centi as int) <= 0xffff_ffff * 0xffff_ffff)
                        by (nonlinear_arith)
                        requires
                            0 <= prev <= 0xffff_ffffu32,
                            0 <= self.ef_centi <= 0xffff_ffffu32,
                    ;
                }
                let product: u64 = (prev as u64) * (self.ef_centi as u64);
                let rounded: u64 = (product + 50) / 100;
                if rounded > 0xffff_ffffu64 {
                    u32::MAX
                } else {
                    rounded as u32
                }
            };
            let nq: i128 = 5 - (quality as i128);
            let inner: i128 = 8 + nq * 2;
            proof {
                assert(-0x4_0000_0000_0000_0000i128 <= nq * inner <= 0x4_0000_0000_0000_0000i128)
                    by (nonlinear_arith)
                    requires
                        -0x1_0000_0000i128 <= nq <= 5,
                        inner == 8 + nq * 2,
                ;
            }
            let delta: i128 = 10 - nq * inner;
            let cand: i128 = (self.ef_centi as i128) + delta;
            self.ef_centi = if cand < 130 {
                130
            } else if cand > 0xffff_ffffi128 {
                u32::MAX
            } else {
                cand as u32
            };
            self.interval = ni;
            self.repetitions = if self.repetitions == u32::MAX {
                u32::MAX
            } else {
                self.repetitions + 1
            };
        }
        self.last_review_day = today;
        self.next_review_day = (today as u64) + (self.interval as u64);
    }

    /// The day number on which this card is next due.
    pub fn get_date(&self) -> (r: u64)
        ensures
            r == self.next_review_day,
    {
        self.next_review_day
    }

    pub fn get_question(&self) -> (r: String)
        ensures
            r == self.question,
    {
        self.question.clone()
    }

    pub fn get_answer(&self) -> (r: String)
        ensures
            r == self.answer,
    {
        self.answer.clone()
    }
}

/// Law: a failed recall (`quality < 3`) always resets the repetition count to
/// zero and the interval to one day, and leaves the ease factor exactly as it
/// was, whatever the prior state.
pub proof fn lemma_review_failure(c: FlashCard, quality: u32, today: u32)
    requires
        quality < 3,
    ensures
        spec_review(c, quality, today).repetitions == 0,
        spec_review(c, quality, today).interval == 1,
        spec_review(c, quality, today).ef_centi == c.ef_centi,
{
}

/// Law: no review drives the ease factor below 1.3. A failed review keeps it,
/// and a successful one clamps the adjusted value at 130 hundredths; so from
/// any state at or above the floor, every rating stays at or above it.
pub proof fn lemma_review_ease_floor(c: FlashCard, quality: u32, today: u32)
    requires
        c.ef_centi >= 130,
    ensures
        spec_review(c, quality, today).ef_centi >= 130,
{
}

/// Law: a review preserves a card's invariant; in particular
/// `next_review_day == last_review_day + interval` holds again afterwards.
pub proof fn lemma_review_preserves_wf(c: FlashCard, quality: u32, today: u32)
    requires
        c.wf(),
    ensures
        spec_review(c, quality, today).wf(),
{
}

} // verus!

//! Segment tracker: remembers the highest sequence number captured so far, so
//! that a segment listed by several polls of a growing playlist is taken once.

use vstd::prelude::*;
use crate::error::Error;
use crate::text::{all_digits, chars_of, digit_value, digits_value, is_digit, lemma_digits_value_prefix};

verus! {

/// Number of characters at the end of `s` that are decimal digits, counted
/// from the end until the first non-digit.
pub open spec fn trailing_digit_count(s: Seq<char>) -> nat
    decreases s.len(),
{
    if s.len() == 0 || !is_digit(s.last()) {
        0
    } else {
        1 + trailing_digit_count(s.drop_last())
    }
}

/// The digits of a segment name of the form `..._<digits>.ts`: the longest run
/// of digits just before the `.ts` extension, when an underscore precedes it.
pub open spec fn sequence_digits(uri: Seq<char>) -> Option<Seq<char>> {
    if uri.len() >= 3 && uri[uri.len() - 3] == '.' && uri[uri.len() - 2] == 't'
        && uri[uri.len() - 1] == 's' {
        let body = uri.subrange(0, uri.len() - 3);
        let k = trailing_digit_count(body);
        if k >= 1 && body.len() > k && body[body.len() - k - 1] == '_' {
            Some(body.subrange(body.len() - k, body.len() as int))
        } else {
            None
        }
    } else {
        None
    }
}

/// The sequence number a segment name carries: its trailing digits, when
/// present and when their value fits in a `u64`.
pub open spec fn sequence_of(uri: Seq<char>) -> Option<u64> {
    match sequence_digits(uri) {
        Some(d) => if digits_value(d) <= u64::MAX {
            Some(digits_value(d) as u64)
        } else {
            None
        },
        None => None,
    }
}

proof fn lemma_trailing_digits(s: Seq<char>)
    ensures
        trailing_digit_count(s) <= s.len(),
        all_digits(s.subrange(s.len() - trailing_digit_count(s), s.len() as int)),
        trailing_digit_count(s) < s.len() ==> !is_digit(s[s.len() - trailing_digit_count(s) - 1]),
    decreases s.len(),
{
    if s.len() > 0 && is_digit(s.last()) {
        lemma_trailing_digits(s.drop_last());
        let k = trailing_digit_count(s) as int;
        let run = s.subrange(s.len() - k, s.len() as int);
        let prev = s.drop_last().subrange(s.len() - k, s.len() - 1);
        assert forall|i: int| 0 <= i < run.len() implies is_digit(#[trigger] run[i]) by {
            if i < run.len() - 1 {
                assert(run[i] == prev[i]);
            }
        }
    }
}

pub struct SegmentTracker {
    last_sequence: u64,
}

impl View for SegmentTracker {
    /// Highest sequence number recorded so far; zero before the first.
    type V = u64;

    closed spec fn view(&self) -> u64 {
        self.last_sequence
    }
}

impl SegmentTracker {
    /// A tracker that has seen nothing yet.
    pub fn new() -> (r: Result<SegmentTracker, Error>)
        ensures
            r matches Ok(t) && t@ == 0,
    {
        Ok(SegmentTracker { last_sequence: 0 })
    }

    /// The sequence number of a segment URI ending in `_<digits>.ts`, if any.
    pub fn extract_sequence(&self, uri: &str) -> (r: Option<u64>)
        ensures
            r == sequence_of(uri@),
    {
        let cs = chars_of(uri);
        let n = cs.len();
        if n < 3 || cs[n - 3] != '.' || cs[n - 2] != 't' || cs[n - 1] != 's' {
            return None;
        }
        let ghost body = cs@.subrange(0, n - 3);
        let end: usize = n - 3;
        let mut start: usize = end;
        proof {
            assert(body.subrange(0, end as int) == body);
        }
        while start > 0 && is_ascii_digit(cs[start - 1])
            invariant
                start <= end,
                end == n - 3,
                n == cs@.len(),
                body == cs@.subrange(0, n - 3),
                trailing_digit_count(body) == (end - start) + trailing_digit_count(
                    body.subrange(0, start as int),
                ),
            decreases start,
        {
            proof {
                assert(body.subrange(0, start as int).drop_last() == body.subrange(0, start - 1));
                assert(body.subrange(0, start as int).last() == cs@[start - 1]);
            }
            start = start - 1;
        }
        proof {
            if start > 0 {
                assert(body.subrange(0, start as int).last() == cs@[start - 1]);
                assert(!is_digit(body.subrange(0, start as int).last()));
            } else {
                assert(body.subrange(0, 0).len() == 0);
            }
            assert(trailing_digit_count(body) == end - start);
        }
        if start == end || start == 0 || cs[start - 1] != '_' {
            return None;
        }
        let ghost digits = body.subrange(start as int, end as int);
        proof {
            assert(body.len() - trailing_digit_count(body) == start);
            lemma_trailing_digits(body);
            assert(sequence_digits(uri@) == Some(digits));
        }
        proof {
            assert(digits.subrange(0, 0).len() == 0);
        }
        let mut value: u64 = 0;
        let mut i: usize = start;
        while i < end
            invariant
                start <= i <= end,
                end == n - 3,
                n == cs@.len(),
                body == cs@.subrange(0, n - 3),
                digits == body.subrange(start as int, end as int),
                all_digits(digits),
                value as nat == digits_value(digits.subrange(0, i - start)),
                cs@ == uri@,
                sequence_digits(uri@) == Some(digits),
            decreases end - i,
        {
            let c = cs[i];
            proof {
                assert(digits[i - start] == c);
                assert(is_digit(c));
                assert(digits.subrange(0, i - start + 1).drop_last() == digits.subrange(0, i - start));
                assert(digits.subrange(0, i - start + 1).last() == c);
                assert(digits_value(digits.subrange(0, i - start + 1)) == value * 10 + digit_value(c));
            }
            let d = (c as u32 - '0' as u32) as u64;
            let next = value.checked_mul(10);
            match next {
                None => {
                    proof {
                        lemma_digits_value_prefix(digits, i - start + 1);
                    }
                    return None;
                }
                Some(m) => {
                    match m.checked_add(d) {
                        None => {
                            proof {
                                lemma_digits_value_prefix(digits, i - start + 1);
                            }
                            return None;
                        }
                        Some(v) => {
                            value = v;
                        }
                    }
                }
            }
            i = i + 1;
        }
        proof {
            assert(digits.subrange(0, end - start) == digits);
        }
        Some(value)
    }

    /// Whether a segment with this sequence number has not been captured yet.
    pub fn is_new_segment(&self, sequence: u64) -> (r: bool)
        ensures
            r == (sequence > self@),
    {
        sequence > self.last_sequence
    }

    /// Records a captured segment; the remembered number never goes down.
    pub fn update_sequence(&mut self, sequence: u64)
        ensures
            final(self)@ == if sequence > old(self)@ {
                sequence
            } else {
                old(self)@
            },
            final(self)@ == after_updates(old(self)@, seq![sequence]),
    {
        reveal_with_fuel(after_updates, 2);
        if sequence > self.last_sequence {
            self.last_sequence = sequence;
        }
        assert(seq![sequence].drop_last() =~= Seq::<u64>::empty());
    }

    /// The highest sequence number recorded so far.
    pub fn last_sequence(&self) -> (r: u64)
        ensures
            r == self@,
    {
        self.last_sequence
    }
}

impl Default for SegmentTracker {
    fn default() -> (r: SegmentTracker)
        ensures
            r@ == 0,
    {
        SegmentTracker { last_sequence: 0 }
    }
}

/// Whether `c` is an ASCII decimal digit.
pub fn is_ascii_digit(c: char) -> (r: bool)
    ensures
        r == is_digit(c),
{
    '0' <= c && c <= '9'
}

/// The remembered sequence number after `updates` were recorded in order,
/// starting from `last`.
pub open spec fn after_updates(last: u64, updates: Seq<u64>) -> u64
    decreases updates.len(),
{
    if updates.len() == 0 {
        last
    } else {
        let before = after_updates(last, updates.drop_last());
        if updates.last() > before {
            updates.last()
        } else {
            before
        }
    }
}

/// Over any run of updates the remembered sequence number never goes down:
/// after a longer prefix of the run it is at least what it was after a
/// shorter one, and after each update it is at least the number recorded.
/// (That a number counts as new exactly when it exceeds the remembered one is
/// the contract of `is_new_segment`; one update is `after_updates` of one
/// number, the contract of `update_sequence`.)
pub proof fn lemma_tracker_monotone(last: u64, updates: Seq<u64>, i: int, j: int)
    requires
        0 <= i <= j <= updates.len(),
    ensures
        after_updates(last, updates.subrange(0, i)) <= after_updates(last, updates.subrange(0, j)),
        j >= 1 ==> updates[j - 1] <= after_updates(last, updates.subrange(0, j)),
        last <= after_updates(last, updates.subrange(0, i)),
    decreases j,
{
    if j == 0 {
        assert(updates.subrange(0, 0).len() == 0);
    } else {
        let k = if i < j { i } else { j - 1 };
        lemma_tracker_monotone(last, updates, k, j - 1);
        assert(updates.subrange(0, j).drop_last() == updates.subrange(0, j - 1));
        assert(updates.subrange(0, j).last() == updates[j - 1]);
    }
}

/// After any run of updates the remembered number is the largest of the
/// starting number and every number recorded: at least each of them, and
/// equal to one of them.
pub proof fn lemma_tracker_is_max(last: u64, updates: Seq<u64>)
    ensures
        last <= after_updates(last, updates),
        forall|j: int| 0 <= j < updates.len() ==> updates[j] <= after_updates(last, updates),
        after_updates(last, updates) == last || exists|j: int|
            0 <= j < updates.len() && updates[j] == after_updates(last, updates),
    decreases updates.len(),
{
    if updates.len() > 0 {
        let pre = updates.drop_last();
        lemma_tracker_is_max(last, pre);
        assert forall|j: int| 0 <= j < updates.len() implies updates[j] <= after_updates(last, updates) by {
            if j < updates.len() - 1 {
                assert(updates[j] == pre[j]);
            }
        }
        if after_updates(last, updates) != last && after_updates(last, updates) != updates.last() {
            let j = choose|j: int| 0 <= j < pre.len() && pre[j] == after_updates(last, pre);
            assert(updates[j] == pre[j]);
        }
    }
}

} // verus!

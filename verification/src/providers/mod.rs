//! The decisions of the data providers: what they compute from the readings
//! they take and what they report.
pub mod battery;
pub mod brightness;
pub mod clock;
pub mod cpu;
pub mod media;
pub mod net;
pub mod niri;
pub mod wifi;

use vstd::prelude::*;

verus! {

/// How long a provider waits after a report that took `worked` nanoseconds to
/// make, when it reports every `duration` nanoseconds: the rest of the
/// interval, or nothing when the work took the whole interval; no wait at all
/// for a provider without an interval, which reports again at once.
pub fn wait_after(duration: Option<u64>, worked: u64) -> (r: Option<u64>)
    ensures
        r == (match duration {
            Some(d) => Some(if worked < d { (d - worked) as u64 } else { 0u64 }),
            None => None::<u64>,
        }),
{
    match duration {
        Some(d) => Some(d.saturating_sub(worked)),
        None => None,
    }
}

/// How a provider's round (an update and the report it writes) ends.
#[derive(Clone, Copy, Debug, PartialEq, Eq, Structural)]
pub enum RoundEnd {
    /// Wait this many nanoseconds, then run the next round.
    Wait(u64),
    /// Run the next round at once.
    Again,
    /// Stop: the round failed, and its error ends the provider.
    Stop,
}

/// How a round that took `worked` nanoseconds ends, for a provider that reports
/// every `duration` nanoseconds (or as often as it can, without a duration).
pub open spec fn round_end(duration: Option<u64>, worked: u64, succeeded: bool) -> RoundEnd {
    if !succeeded {
        RoundEnd::Stop
    } else {
        match duration {
            Some(d) => RoundEnd::Wait(
                if worked < d {
                    (d - worked) as u64
                } else {
                    0
                },
            ),
            None => RoundEnd::Again,
        }
    }
}

/// How a provider's round ends: a failed round stops the provider, a
/// successful one waits the rest of the interval.
pub fn after_round(duration: Option<u64>, worked: u64, succeeded: bool) -> (r: RoundEnd)
    ensures
        r == round_end(duration, worked, succeeded),
{
    if !succeeded {
        RoundEnd::Stop
    } else {
        match wait_after(duration, worked) {
            Some(w) => RoundEnd::Wait(w),
            None => RoundEnd::Again,
        }
    }
}

/// The ends of the rounds a provider runs, given for each round the time it
/// takes and whether it succeeds: the rounds up to the first that fails, which
/// is the last one run.
pub open spec fn rounds_run(duration: Option<u64>, rounds: Seq<(u64, bool)>) -> Seq<RoundEnd>
    decreases rounds.len(),
{
    if rounds.len() == 0 {
        Seq::empty()
    } else {
        let e = round_end(duration, rounds[0].0, rounds[0].1);
        if e == RoundEnd::Stop {
            seq![e]
        } else {
            seq![e] + rounds_run(duration, rounds.drop_first())
        }
    }
}

/// The place of the first round that fails, or the number of rounds.
pub open spec fn first_failure(rounds: Seq<(u64, bool)>) -> nat
    decreases rounds.len(),
{
    if rounds.len() == 0 || !rounds[0].1 {
        0
    } else {
        1 + first_failure(rounds.drop_first())
    }
}

/// A provider runs round after round, each an update and one report, until
/// the first round that fails: that round ends the provider with its error and
/// nothing runs after it. Every round before it wrote its report and then waited
/// the rest of the interval (the interval less the round's time, at least
/// nothing), or went on at once without an interval.
pub proof fn law_rounds_until_failure(duration: Option<u64>, rounds: Seq<(u64, bool)>)
    ensures
        rounds_run(duration, rounds).len() == (if first_failure(rounds) < rounds.len() {
            first_failure(rounds) + 1
        } else {
            rounds.len() as nat
        }),
        forall|i: int|
            0 <= i < rounds_run(duration, rounds).len() ==> #[trigger] rounds_run(duration, rounds)[i]
                == round_end(duration, rounds[i].0, rounds[i].1),
        forall|i: int| 0 <= i < first_failure(rounds) ==> #[trigger] rounds_run(duration, rounds)[i] != RoundEnd::Stop,
        first_failure(rounds) < rounds.len() ==> rounds_run(duration, rounds)[first_failure(rounds) as int]
            == RoundEnd::Stop,
        first_failure(rounds) <= rounds.len(),
    decreases rounds.len(),
{
    if rounds.len() > 0 {
        law_rounds_until_failure(duration, rounds.drop_first());
        let rest = rounds_run(duration, rounds.drop_first());
        let all = rounds_run(duration, rounds);
        if rounds[0].1 {
            assert(all == seq![round_end(duration, rounds[0].0, rounds[0].1)] + rest);
            assert forall|i: int| 0 < i < all.len() implies #[trigger] all[i] == round_end(duration, rounds[i].0, rounds[i].1) by {
                assert(all[i] == rest[i - 1]);
                assert(rounds.drop_first()[i - 1] == rounds[i]);
            }
            assert forall|i: int| 0 < i < first_failure(rounds) implies #[trigger] all[i] != RoundEnd::Stop by {
                assert(all[i] == rest[i - 1]);
            }
            if first_failure(rounds) < rounds.len() {
                assert(all[first_failure(rounds) as int] == rest[first_failure(rounds.drop_first()) as int]);
            }
        }
    }
}

} // verus!

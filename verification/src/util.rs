//! Helpers shared by the rest of the crate.

use crate::text::{chars_of, parse_word, word};
use vstd::prelude::*;

pub mod byte_stream;
pub mod feed_ext;

pub use byte_stream::ByteStream;

verus! {

/// A thin wrapper that lets this crate attach methods to a borrowed value.
#[derive(Default)]
pub struct W<T>(pub T);

/// The number of runs of the downloader that may go on at a time where the
/// setting says nothing usable.
pub const DEFAULT_CONCURRENCY: usize = 1;

/// The number of runs of the downloader that may go on at a time: what the
/// setting says, or one where it is absent or no number.
pub fn ytdlp_concurrency(setting: Option<&str>) -> (limit: usize)
    ensures
        limit == match setting {
            Some(text) => match word(text@) {
                Some(n) => n,
                None => DEFAULT_CONCURRENCY,
            },
            None => DEFAULT_CONCURRENCY,
        },
{
    match setting {
        Some(text) => {
            let chars = chars_of(text);
            match parse_word(&chars) {
                Some(n) => n,
                None => DEFAULT_CONCURRENCY,
            }
        },
        None => DEFAULT_CONCURRENCY,
    }
}

/// The number of attempts of a race that may go on at a time.
pub const RACE_WINDOW: usize = 10;

/// The result of a race between attempts whose results, in the order in
/// which the attempts were listed, are `results`: the first success, or the
/// last failure where none succeeded.
pub open spec fn race_result<A, E>(results: Seq<Result<A, E>>) -> Result<A, E>
    recommends
        results.len() > 0,
    decreases results.len(),
{
    if results.len() <= 1 || results[0] is Ok {
        results[0]
    } else {
        race_result(results.drop_first())
    }
}

/// The running state of a race: the failure seen last, if any.
pub struct Race<E> {
    last_err: Option<E>,
}

impl<E> Race<E> {
    /// The failure seen last.
    pub closed spec fn last_failure(&self) -> Option<E> {
        self.last_err
    }

    /// A race in which no attempt has ended yet.
    pub fn new() -> (r: Self)
        ensures
            r.last_failure() is None,
    {
        Race { last_err: None }
    }

    /// Takes the result of the next attempt in order. A success wins the
    /// race and is handed back; a failure is noted as the last one seen.
    pub fn settle<A>(&mut self, result: Result<A, E>) -> (won: Option<A>)
        ensures
            match result {
                Ok(a) => won == Some(a) && final(self).last_failure() == old(
                    self,
                ).last_failure(),
                Err(e) => won is None && final(self).last_failure() == Some(e),
            },
    {
        match result {
            Ok(a) => Some(a),
            Err(e) => {
                self.last_err = Some(e);
                None
            },
        }
    }

    /// Ends a race that nobody won: the failure seen last, `None` where no
    /// attempt was made at all.
    pub fn give_up(self) -> (e: Option<E>)
        ensures
            e == self.last_failure(),
    {
        self.last_err
    }
}

/// Picks the result of a race from the results of its attempts, listed in
/// the order of the attempts: the first success, whichever attempt ended
/// first in time, or the last failure where every attempt failed.
pub fn race_ordered_first_ok<A, E>(results: Vec<Result<A, E>>) -> (r: Result<A, E>)
    requires
        results.len() > 0,
    ensures
        r == race_result(results@),
{
    let mut race: Race<E> = Race::new();
    let ghost all = results@;
    for result in it: results.into_iter()
        invariant
            it.seq() == all,
            all.len() > 0,
            forall|k: int| 0 <= k < it.index() ==> all[k] is Err,
            it.index() > 0 ==> race.last_failure() == Some(all[it.index() - 1]->Err_0),
            it.index() == 0 ==> race.last_failure() is None,
    {
        proof {
            first_success_wins(all, it.index() as int);
        }
        match race.settle(result) {
            Some(a) => {
                return Ok(a);
            },
            None => {},
        }
    }
    proof {
        last_failure_is_returned(all);
    }
    Err(race.give_up().unwrap())
}

/// The first success in the order of the list wins, whatever comes after it.
pub proof fn first_success_wins<A, E>(results: Seq<Result<A, E>>, winner: int)
    requires
        0 <= winner < results.len(),
        forall|k: int| 0 <= k < winner ==> results[k] is Err,
    ensures
        results[winner] is Ok ==> race_result(results) == results[winner],
    decreases results.len(),
{
    if winner > 0 {
        let rest = results.drop_first();
        assert forall|k: int| 0 <= k < winner - 1 implies rest[k] is Err by {
            assert(rest[k] == results[k + 1]);
        }
        first_success_wins(rest, winner - 1);
    }
}

/// A race fails only when every attempt fails; as soon as one succeeds, so
/// does the race.
pub proof fn race_fails_only_when_all_fail<A, E>(results: Seq<Result<A, E>>)
    requires
        results.len() > 0,
    ensures
        race_result(results) is Err <==> forall|k: int|
            0 <= k < results.len() ==> (#[trigger] results[k]) is Err,
    decreases results.len(),
{
    if results.len() > 1 && results[0] is Err {
        let rest = results.drop_first();
        race_fails_only_when_all_fail(rest);
        if race_result(rest) is Err {
            assert forall|k: int| 0 <= k < results.len() implies (#[trigger] results[k]) is Err by {
                if k > 0 {
                    assert(rest[k - 1] == results[k]);
                }
            }
        } else {
            let k = choose|k: int| 0 <= k < rest.len() && !((#[trigger] rest[k]) is Err);
            assert(results[k + 1] == rest[k]);
        }
    }
}

/// Where every attempt fails, the race ends in the failure of the last one.
pub proof fn last_failure_is_returned<A, E>(results: Seq<Result<A, E>>)
    requires
        results.len() > 0,
        forall|k: int| 0 <= k < results.len() ==> results[k] is Err,
    ensures
        race_result(results) == results.last(),
    decreases results.len(),
{
    if results.len() > 1 {
        let rest = results.drop_first();
        assert forall|k: int| 0 <= k < rest.len() implies rest[k] is Err by {
            assert(rest[k] == results[k + 1]);
        }
        last_failure_is_returned(rest);
    }
}

} // verus!

//! Day 4: reindeer strength and the candy eating contest.

use vstd::prelude::*;
use vstd::string::*;

use crate::decimal::{decimal_of, decimal_string};

verus! {

/// A reindeer with its pulling strength.
pub struct Reindeer {
    pub name: String,
    pub strength: i32,
}

/// A contest entrant: a reindeer and its contest stats.
///
/// `speed_bits` is the bit pattern of the speed as an IEEE-754 single
/// (`f32::to_bits`); speeds are compared through `speed_order`.
pub struct ReindeerExtended {
    pub reindeer: Reindeer,
    pub speed_bits: u32,
    pub height: i32,
    pub antler_width: i32,
    pub snow_magic_power: i32,
    pub favorite_food: String,
    pub candies_eaten_yesterday: i32,
}

/// The four winners' sentences of the contest.
pub struct ContestResult {
    pub fastest: String,
    pub tallest: String,
    pub magician: String,
    pub consumer: String,
}

/// Sum of the strengths of the first `s.len()` reindeer.
pub open spec fn total_strength(s: Seq<Reindeer>) -> int
    decreases s.len(),
{
    if s.len() == 0 {
        0
    } else {
        total_strength(s.drop_last()) + s.last().strength
    }
}

/// The combined strength of the team as decimal text; `None` when the sum
/// does not fit in `i32`.
pub fn reindeer_strength(reindeer: &Vec<Reindeer>) -> (r: Option<String>)
    ensures
        r is Some <==> i32::MIN <= total_strength(reindeer@) <= i32::MAX,
        r is Some ==> r.unwrap()@ == decimal_of(total_strength(reindeer@)),
{
    let mut acc: i128 = 0;
    let mut i: usize = 0;
    while i < reindeer.len()
        invariant
            i <= reindeer@.len(),
            acc == total_strength(reindeer@.subrange(0, i as int)),
            -0x8000_0000 * i <= acc <= 0x8000_0000 * i,
        decreases reindeer@.len() - i,
    {
        assert(reindeer@.subrange(0, i as int + 1).drop_last() =~= reindeer@.subrange(0, i as int));
        acc = acc + reindeer[i].strength as i128;
        i = i + 1;
    }
    assert(reindeer@.subrange(0, reindeer@.len() as int) =~= reindeer@);
    if i32::MIN as i128 <= acc && acc <= i32::MAX as i128 {
        Some(decimal_string(acc as i32))
    } else {
        None
    }
}

/// A stat on which the contest names a winner.
pub enum Stat {
    Speed,
    Height,
    SnowMagicPower,
    CandiesEaten,
}

/// The order of IEEE-754 single speeds, read from their bits: sign and
/// magnitude, so that both zeros compare equal.
pub open spec fn speed_order(bits: u32) -> int {
    if bits >= 0x8000_0000 {
        -((bits - 0x8000_0000) as int)
    } else {
        bits as int
    }
}

/// The value of a stat that the contest compares.
pub open spec fn stat_key(r: ReindeerExtended, stat: Stat) -> int {
    match stat {
        Stat::Speed => speed_order(r.speed_bits),
        Stat::Height => r.height as int,
        Stat::SnowMagicPower => r.snow_magic_power as int,
        Stat::CandiesEaten => r.candies_eaten_yesterday as int,
    }
}

pub open spec fn stat_keys(s: Seq<ReindeerExtended>, stat: Stat) -> Seq<int> {
    Seq::new(s.len(), |i: int| stat_key(s[i], stat))
}

/// Index of the greatest key; among equal greatest keys, the last one.
pub open spec fn last_argmax(keys: Seq<int>) -> int
    decreases keys.len(),
{
    if keys.len() <= 1 {
        0
    } else {
        let m = last_argmax(keys.drop_last());
        if keys.last() >= keys[m] {
            keys.len() - 1
        } else {
            m
        }
    }
}

/// The winner of a stat: the last of the entrants with the greatest value.
pub open spec fn winner_of(s: Seq<ReindeerExtended>, stat: Stat) -> ReindeerExtended {
    s[last_argmax(stat_keys(s, stat))]
}

pub open spec fn fastest_line(r: ReindeerExtended) -> Seq<char> {
    "Speeding past the finish line with a strength of "@ + decimal_of(r.reindeer.strength as int)
        + " is "@ + r.reindeer.name@
}

pub open spec fn tallest_line(r: ReindeerExtended) -> Seq<char> {
    r.reindeer.name@ + " is standing tall with his "@ + decimal_of(r.antler_width as int)
        + " cm wide antlers"@
}

pub open spec fn magician_line(r: ReindeerExtended) -> Seq<char> {
    r.reindeer.name@ + " could blast you away with a snow magic power of "@ + decimal_of(
        r.snow_magic_power as int,
    )
}

pub open spec fn consumer_line(r: ReindeerExtended) -> Seq<char> {
    r.reindeer.name@ + " ate lots of candies, but also some "@ + r.favorite_food@
}

/// The greatest key is at `last_argmax`, and no later key equals it.
pub proof fn lemma_last_argmax_is_greatest(keys: Seq<int>)
    requires
        keys.len() > 0,
    ensures
        0 <= last_argmax(keys) < keys.len(),
        forall|j: int| 0 <= j < keys.len() ==> #[trigger] keys[j] <= keys[last_argmax(keys)],
        forall|j: int|
            last_argmax(keys) < j < keys.len() ==> #[trigger] keys[j] < keys[last_argmax(keys)],
    decreases keys.len(),
{
    if keys.len() > 1 {
        let init = keys.drop_last();
        lemma_last_argmax_is_greatest(init);
        assert forall|j: int| 0 <= j < init.len() implies init[j] == keys[j] by {}
    }
}

/// The value of `stat` for one entrant.
fn stat_value(r: &ReindeerExtended, stat: &Stat) -> (v: i64)
    ensures
        v as int == stat_key(*r, *stat),
{
    match stat {
        Stat::Speed => {
            if r.speed_bits >= 0x8000_0000 {
                -((r.speed_bits - 0x8000_0000) as i64)
            } else {
                r.speed_bits as i64
            }
        },
        Stat::Height => r.height as i64,
        Stat::SnowMagicPower => r.snow_magic_power as i64,
        Stat::CandiesEaten => r.candies_eaten_yesterday as i64,
    }
}

/// Index of the winner of `stat`.
fn winner(reindeer: &Vec<ReindeerExtended>, stat: Stat) -> (w: usize)
    requires
        reindeer@.len() > 0,
    ensures
        w as int == last_argmax(stat_keys(reindeer@, stat)),
        w < reindeer@.len(),
{
    let ghost keys = stat_keys(reindeer@, stat);
    let mut best: usize = 0;
    let mut best_key: i64 = stat_value(&reindeer[0], &stat);
    let mut i: usize = 1;
    while i < reindeer.len()
        invariant
            1 <= i <= reindeer@.len(),
            keys == stat_keys(reindeer@, stat),
            best as int == last_argmax(keys.subrange(0, i as int)),
            best < i,
            best_key as int == keys[best as int],
        decreases reindeer@.len() - i,
    {
        assert(keys.subrange(0, i as int + 1).drop_last() =~= keys.subrange(0, i as int));
        let k = stat_value(&reindeer[i], &stat);
        if k >= best_key {
            best = i;
            best_key = k;
        }
        i = i + 1;
    }
    assert(keys.subrange(0, reindeer@.len() as int) =~= keys);
    proof {
        lemma_last_argmax_is_greatest(keys);
    }
    best
}

/// The contest's four winners' sentences; `None` (a client error) when no
/// reindeer takes part.
pub fn candy_eating_contest(reindeer: &Vec<ReindeerExtended>) -> (r: Option<ContestResult>)
    ensures
        r is None <==> reindeer@.len() == 0,
        r matches Some(c) ==> {
            &&& c.fastest@ == fastest_line(winner_of(reindeer@, Stat::Speed))
            &&& c.tallest@ == tallest_line(winner_of(reindeer@, Stat::Height))
            &&& c.magician@ == magician_line(winner_of(reindeer@, Stat::SnowMagicPower))
            &&& c.consumer@ == consumer_line(winner_of(reindeer@, Stat::CandiesEaten))
        },
{
    if reindeer.len() == 0 {
        return None;
    }
    let fastest = &reindeer[winner(reindeer, Stat::Speed)];
    let tallest = &reindeer[winner(reindeer, Stat::Height)];
    let magician = &reindeer[winner(reindeer, Stat::SnowMagicPower)];
    let consumer = &reindeer[winner(reindeer, Stat::CandiesEaten)];
    let fastest_text = String::from_str("Speeding past the finish line with a strength of ")
        .concat(decimal_string(fastest.reindeer.strength).as_str())
        .concat(" is ")
        .concat(fastest.reindeer.name.as_str());
    let tallest_text = tallest.reindeer.name.clone()
        .concat(" is standing tall with his ")
        .concat(decimal_string(tallest.antler_width).as_str())
        .concat(" cm wide antlers");
    let magician_text = magician.reindeer.name.clone()
        .concat(" could blast you away with a snow magic power of ")
        .concat(decimal_string(magician.snow_magic_power).as_str());
    let consumer_text = consumer.reindeer.name.clone()
        .concat(" ate lots of candies, but also some ")
        .concat(consumer.favorite_food.as_str());
    Some(ContestResult {
        fastest: fastest_text,
        tallest: tallest_text,
        magician: magician_text,
        consumer: consumer_text,
    })
}

} // verus!

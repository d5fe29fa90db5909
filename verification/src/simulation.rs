use vstd::prelude::*;
use rand::rngs::StdRng;
use crate::Time;
use crate::pedestrian::MAX_TIME;

verus! {

/// The deterministic random generator the kernel owns and consumes.
#[verifier::external_type_specification]
#[verifier::external_body]
pub struct ExStdRng(StdRng);

/// Relies on rand's `SeedableRng::seed_from_u64`: builds a generator from
/// a seed; nothing is assumed of the values it will produce.
#[verifier::external_body]
pub(crate) fn seed_rng(seed: u64) -> StdRng {
    <StdRng as rand::SeedableRng>::seed_from_u64(seed)
}

/// Relies on rand's `WeightedIndex` over two integer weights: the sampled
/// index is one of the two slots, and a slot of weight zero is never
/// drawn.
#[verifier::external_body]
pub(crate) fn sample_weighted_pair(w_first: u32, w_second: u32, rng: &mut StdRng)
    -> (r: usize)
    requires
        w_first + w_second > 0,
        w_first + w_second <= 0xFFFF_FFFF,
    ensures
        r < 2,
        w_second == 0 ==> r == 0,
        w_first == 0 ==> r == 1,
{
    let dist = rand::distributions::WeightedIndex::new([w_first, w_second]).unwrap();
    rand::prelude::Distribution::sample(&dist, rng)
}

/// Relies on rand's `WeightedIndex` over equal integer weights: the
/// sampled index is uniform over `0..n` and in range.
#[verifier::external_body]
pub(crate) fn sample_uniform_index(n: usize, rng: &mut StdRng) -> (r: usize)
    requires
        1 <= n <= 1_000_000,
    ensures
        r < n,
{
    let dist = rand::distributions::WeightedIndex::new(vec![1u32; n]).unwrap();
    rand::prelude::Distribution::sample(&dist, rng)
}

/// The instant `start + draws[0] + ... + draws[k-1]`.
pub open spec fn spec_arrival_sum(start: int, draws: Seq<i64>, k: int) -> int
    decreases k,
{
    if k <= 0 {
        start
    } else {
        spec_arrival_sum(start, draws, k - 1) + draws[k - 1]
    }
}

/// Builds the sorted arrival stream from non-negative inter-arrival
/// draws: successive partial sums past `start_time`, cut off at the first
/// one beyond `end_time`.  The rate, in millionths of an arrival per
/// second, only distinguishes a zero rate, which means no arrivals at
/// all.
pub fn arrival_times(
    start_time: &Time,
    end_time: &Time,
    arrival_rate_micros: u32,
    draws: &Vec<Time>,
) -> (r: Vec<Time>)
    requires
        0 <= *start_time <= *end_time <= MAX_TIME,
        forall|i: int| 0 <= i < draws@.len() ==> #[trigger] draws@[i] >= 0,
    ensures
        arrival_rate_micros == 0 ==> r@.len() == 0,
        r@.len() <= draws@.len(),
        forall|i: int| 0 <= i < r@.len() ==>
            #[trigger] r@[i] == spec_arrival_sum(*start_time as int, draws@, i + 1),
        forall|i: int| 0 <= i < r@.len() ==> *start_time <= #[trigger] r@[i] <= *end_time,
        forall|i: int, j: int| 0 <= i <= j < r@.len() ==>
            #[trigger] r@[i] <= #[trigger] r@[j],
        arrival_rate_micros > 0 && r@.len() < draws@.len() ==>
            spec_arrival_sum(*start_time as int, draws@, r@.len() as int + 1)
                > *end_time,
{
    let mut ret: Vec<Time> = Vec::new();
    if arrival_rate_micros == 0 {
        return ret;
    }
    let mut t: Time = *start_time;
    let n = draws.len();
    let mut i: usize = 0;
    while i < n
        invariant
            n == draws@.len(),
            i <= n,
            forall|k: int| 0 <= k < draws@.len() ==> #[trigger] draws@[k] >= 0,
            0 <= *start_time <= *end_time <= MAX_TIME,
            *start_time <= t <= *end_time,
            t == spec_arrival_sum(*start_time as int, draws@, i as int),
            ret@.len() == i,
            forall|k: int| 0 <= k < i ==>
                #[trigger] ret@[k] == spec_arrival_sum(*start_time as int, draws@, k + 1),
            forall|k: int| 0 <= k < i ==>
                *start_time <= #[trigger] ret@[k] <= *end_time,
            forall|k: int, l: int| 0 <= k <= l < i ==>
                #[trigger] ret@[k] <= #[trigger] ret@[l],
            forall|k: int| 0 <= k < i ==> #[trigger] ret@[k] <= t,
        ensures
            ret@.len() <= draws@.len(),
            forall|k: int| 0 <= k < ret@.len() ==>
                #[trigger] ret@[k] == spec_arrival_sum(*start_time as int, draws@, k + 1),
            forall|k: int| 0 <= k < ret@.len() ==>
                *start_time <= #[trigger] ret@[k] <= *end_time,
            forall|k: int, l: int| 0 <= k <= l < ret@.len() ==>
                #[trigger] ret@[k] <= #[trigger] ret@[l],
            ret@.len() < draws@.len() ==>
                spec_arrival_sum(*start_time as int, draws@, ret@.len() as int + 1)
                    > *end_time,
        decreases n - i,
    {
        let d = draws[i];
        if d > *end_time - t {
            proof {
                assert(spec_arrival_sum(*start_time as int, draws@, i + 1)
                    == t + draws@[i as int]);
            }
            break;
        }
        t = t + d;
        ret.push(t);
        i = i + 1;
    }
    ret
}

/// Minimum spacing between consecutive vehicle arrivals, in milliseconds:
/// the brake-to-stop time from the speed cap, rounded up.
pub const MIN_VEHICLE_HEADWAY: Time = 3_400;

/// Pushes arrival instants forward until consecutive ones are at least
/// `MIN_VEHICLE_HEADWAY` apart; order and count are kept, and no instant
/// moves backward.
pub fn enforce_min_headway(times: &mut Vec<Time>)
    requires
        old(times)@.len() <= 100_000_000,
        forall|i: int| 0 <= i < old(times)@.len() ==>
            0 <= #[trigger] old(times)@[i] <= MAX_TIME,
        forall|i: int, j: int| 0 <= i <= j < old(times)@.len() ==>
            #[trigger] old(times)@[i] <= #[trigger] old(times)@[j],
    ensures
        final(times)@.len() == old(times)@.len(),
        forall|i: int| 0 <= i < final(times)@.len() ==>
            #[trigger] final(times)@[i] >= old(times)@[i],
        forall|i: int| 0 < i < final(times)@.len() ==>
            #[trigger] final(times)@[i] - final(times)@[i - 1] >= MIN_VEHICLE_HEADWAY,
        forall|i: int| 0 < i < final(times)@.len() ==>
            #[trigger] final(times)@[i] == if old(times)@[i]
                >= final(times)@[i - 1] + MIN_VEHICLE_HEADWAY {
                old(times)@[i] as int
            } else {
                final(times)@[i - 1] + MIN_VEHICLE_HEADWAY
            },
        final(times)@.len() > 0 ==> final(times)@[0] == old(times)@[0],
        forall|i: int| 0 <= i < final(times)@.len() ==>
            #[trigger] final(times)@[i]
                <= MAX_TIME + i * MIN_VEHICLE_HEADWAY,
{
    let n = times.len();
    let mut i: usize = 1;
    while i < n
        invariant
            n == times@.len(),
            n == old(times)@.len(),
            n <= 100_000_000,
            1 <= i || n == 0,
            i <= n || n == 0,
            forall|k: int| 0 <= k < n ==>
                0 <= #[trigger] old(times)@[k] <= MAX_TIME,
            forall|k: int| i <= k < n ==> #[trigger] times@[k] == old(times)@[k],
            forall|k: int| 0 <= k < i && k < n ==>
                #[trigger] times@[k] >= old(times)@[k],
            n > 0 ==> times@[0] == old(times)@[0],
            forall|k: int| 0 < k < i && k < n ==>
                #[trigger] times@[k] == if old(times)@[k]
                    >= times@[k - 1] + MIN_VEHICLE_HEADWAY {
                    old(times)@[k] as int
                } else {
                    times@[k - 1] + MIN_VEHICLE_HEADWAY
                },
            forall|k: int| 0 < k < i && k < n ==>
                #[trigger] times@[k] - times@[k - 1] >= MIN_VEHICLE_HEADWAY,
            forall|k: int| 0 <= k < i && k < n ==>
                #[trigger] times@[k] <= MAX_TIME + k * MIN_VEHICLE_HEADWAY,
        decreases n - i,
    {
        let prev = times[i - 1];
        let cur = times[i];
        if cur - prev < MIN_VEHICLE_HEADWAY {
            times.set(i, prev + MIN_VEHICLE_HEADWAY);
        }
        i = i + 1;
    }
}

} // verus!

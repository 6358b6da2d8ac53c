use vstd::prelude::*;

verus! {

/// Gas charged for the flashloan itself, whatever it carries.
pub const FLASHLOAN_BASE_GAS: u64 = 100_000;

/// Gas of one DEX swap.
pub const SWAP_GAS: u64 = 150_000;

/// The gas limit of a flashloan arbitrage made of `num_swaps` swaps.
pub open spec fn arb_gas_limit(num_swaps: nat) -> int {
    FLASHLOAN_BASE_GAS + SWAP_GAS * num_swaps
}

/// The gas limit of a single DEX swap.
pub fn swap_gas_limit() -> (g: u64)
    ensures
        g == SWAP_GAS,
{
    SWAP_GAS
}

/// The gas limit of a flashloan arbitrage with `num_swaps` swaps.
pub fn flashloan_arb_gas_limit(num_swaps: u32) -> (g: u64)
    ensures
        g == arb_gas_limit(num_swaps as nat),
{
    let n: u64 = num_swaps as u64;
    assert(n * SWAP_GAS <= 0xffff_ffff * 150_000) by (nonlinear_arith)
        requires
            n <= 0xffff_ffff,
    ;
    FLASHLOAN_BASE_GAS + n * SWAP_GAS
}


/// The number of blocks that can be chosen from: the predictions before the deadline.
pub open spec fn execution_window(predictions: Seq<u64>, deadline: int) -> int {
    if predictions.len() < deadline {
        predictions.len() as int
    } else {
        deadline
    }
}

/// `b` is the first block of the window whose predicted price is the lowest.
pub open spec fn is_first_cheapest(keys: Seq<u64>, window: int, b: int) -> bool {
    &&& 0 <= b < window
    &&& forall|k: int| 0 <= k < window ==> keys[b] <= #[trigger] keys[k]
    &&& forall|k: int| 0 <= k < b ==> keys[b] < #[trigger] keys[k]
}

/// Picks the block to execute in before `deadline`: the first block with the lowest
/// predicted gas price, or block 0 when there is nothing to choose from.
///
/// `price_keys[k]` orders the predicted prices: a lower key is a lower price.
pub fn optimal_execution_block(price_keys: &Vec<u64>, deadline: usize) -> (b: usize)
    ensures
        execution_window(price_keys@, deadline as int) == 0 ==> b == 0,
        execution_window(price_keys@, deadline as int) > 0 ==> is_first_cheapest(
            price_keys@,
            execution_window(price_keys@, deadline as int),
            b as int,
        ),
{
    let window = if price_keys.len() < deadline {
        price_keys.len()
    } else {
        deadline
    };
    if window == 0 {
        return 0;
    }
    let mut best: usize = 0;
    let mut k: usize = 1;
    while k < window
        invariant
            window == execution_window(price_keys@, deadline as int),
            window <= price_keys.len(),
            1 <= k <= window,
            is_first_cheapest(price_keys@, k as int, best as int),
        decreases window - k,
    {
        if price_keys[k] < price_keys[best] {
            best = k;
        }
        k = k + 1;
    }
    best
}

/// Hours in a day and days in a week, which the time-of-day patterns wrap around.
pub const HOURS_PER_DAY: usize = 24;

pub const DAYS_PER_WEEK: usize = 7;

/// The slot of an (hour, day-of-week) pair in a table of `24 * 7` slots; hours and days
/// beyond the range wrap around.
pub open spec fn slot_of(hour: int, day: int) -> int {
    (hour % 24) * 7 + day % 7
}

/// The slot of `hour` on `day_of_week` in a table of `24 * 7` slots.
pub fn time_slot(hour: usize, day_of_week: usize) -> (s: usize)
    ensures
        s == slot_of(hour as int, day_of_week as int),
        s < HOURS_PER_DAY * DAYS_PER_WEEK,
{
    (hour % HOURS_PER_DAY) * DAYS_PER_WEEK + day_of_week % DAYS_PER_WEEK
}

/// The hour of day reached `i` hours after `hour`.
pub open spec fn hour_after(hour: int, i: int) -> int {
    (hour + i) % 24
}

/// The day of week reached `i` hours after `hour` on `day`.
pub open spec fn day_after(hour: int, day: int, i: int) -> int {
    (day + (hour + i) / 24) % 7
}

/// The price key of the slot reached `i` hours ahead.
pub open spec fn key_after(slot_keys: Seq<u64>, hour: int, day: int, i: int) -> u64 {
    slot_keys[slot_of(hour_after(hour, i), day_after(hour, day, i))]
}

/// `best` is the first of the next `hours_ahead` hours whose expected price is the lowest.
pub open spec fn is_best_offset(slot_keys: Seq<u64>, hour: int, day: int, hours_ahead: int, best: int) -> bool {
    &&& 0 <= best < hours_ahead
    &&& forall|k: int|
        0 <= k < hours_ahead ==> key_after(slot_keys, hour, day, best) <= #[trigger] key_after(
            slot_keys,
            hour,
            day,
            k,
        )
    &&& forall|k: int|
        0 <= k < best ==> key_after(slot_keys, hour, day, best) < #[trigger] key_after(
            slot_keys,
            hour,
            day,
            k,
        )
}

/// Finds the cheapest (hour, day-of-week) to execute in among the next `hours_ahead`
/// hours, starting with the current one; the first such hour wins ties.
///
/// `slot_keys[time_slot(h, d)]` orders the expected gas price of hour `h` on day `d`.
/// The flag is false when there is no hour to choose from, and then the current hour
/// and day come back unchanged.
pub fn best_execution_time(
    slot_keys: &Vec<u64>,
    current_hour: usize,
    current_day: usize,
    hours_ahead: usize,
) -> (r: (usize, usize, bool))
    requires
        slot_keys.len() == 24 * 7,
        hours_ahead > 0 ==> current_hour + (hours_ahead - 1) <= usize::MAX,
        hours_ahead > 0 ==> current_day + (current_hour + (hours_ahead - 1)) / 24 <= usize::MAX,
    ensures
        hours_ahead == 0 ==> r == (current_hour, current_day, false),
        hours_ahead > 0 ==> r.2 && exists|best: int|
            is_best_offset(slot_keys@, current_hour as int, current_day as int, hours_ahead as int, best)
                && r.0 == hour_after(current_hour as int, best) && r.1 == day_after(
                current_hour as int,
                current_day as int,
                best,
            ),
{
    let mut best_hour = current_hour;
    let mut best_day = current_day;
    let mut found = false;
    let mut best_key: u64 = 0;
    let ghost mut best_i: int = 0;
    let mut i: usize = 0;
    while i < hours_ahead
        invariant
            slot_keys.len() == 24 * 7,
            hours_ahead > 0 ==> current_hour + (hours_ahead - 1) <= usize::MAX,
            hours_ahead > 0 ==> current_day + (current_hour + (hours_ahead - 1)) / 24 <= usize::MAX,
            i <= hours_ahead,
            found <==> i > 0,
            !found ==> best_hour == current_hour && best_day == current_day,
            found ==> {
                &&& is_best_offset(slot_keys@, current_hour as int, current_day as int, i as int, best_i)
                &&& best_hour == hour_after(current_hour as int, best_i)
                &&& best_day == day_after(current_hour as int, current_day as int, best_i)
                &&& best_key == key_after(slot_keys@, current_hour as int, current_day as int, best_i)
            },
        decreases hours_ahead - i,
    {
        let t = current_hour + i;
        proof {
            vstd::arithmetic::div_mod::lemma_div_is_ordered(t as int, current_hour + (hours_ahead - 1), 24);
        }
        let hour = t % HOURS_PER_DAY;
        let day = (current_day + t / HOURS_PER_DAY) % DAYS_PER_WEEK;
        let key = slot_keys[time_slot(hour, day)];
        proof {
            assert(hour < 24 && day < 7);
            assert(hour % 24 == hour && day % 7 == day);
        }
        if !found || key < best_key {
            best_hour = hour;
            best_day = day;
            best_key = key;
            found = true;
            proof {
                best_i = i as int;
            }
        }
        i = i + 1;
    }
    (best_hour, best_day, found)
}

/// The cheapest time found looks at the hour and the day of week actually reached:
/// for every offset `k` among the next `hours_ahead` hours, the slot of the hour
/// `(h + k) % 24` on the day `(d + (h + k) / 24) % 7` is no cheaper than the slot returned.
pub proof fn law_best_time_is_cheapest(
    slot_keys: Seq<u64>,
    current_hour: usize,
    current_day: usize,
    hours_ahead: usize,
    r: (usize, usize, bool),
    k: int,
)
    requires
        slot_keys.len() == 24 * 7,
        hours_ahead > 0 ==> r.2 && exists|best: int|
            is_best_offset(slot_keys, current_hour as int, current_day as int, hours_ahead as int, best)
                && r.0 == hour_after(current_hour as int, best) && r.1 == day_after(
                current_hour as int,
                current_day as int,
                best,
            ),
        0 <= k < hours_ahead,
    ensures
        r.2,
        r.0 < 24,
        r.1 < 7,
        slot_keys[r.0 * 7 + r.1] <= slot_keys[((current_hour + k) % 24) * 7 + (current_day + (
        current_hour + k) / 24) % 7],
{
    let h = current_hour as int;
    let d = current_day as int;
    let best = choose|best: int|
        is_best_offset(slot_keys, h, d, hours_ahead as int, best) && r.0 == hour_after(h, best)
            && r.1 == day_after(h, d, best);
    assert(key_after(slot_keys, h, d, best) <= key_after(slot_keys, h, d, k));
    lemma_slot_of_reached(h, d, best);
    lemma_slot_of_reached(h, d, k);
}

/// Among offsets of equal price the earliest wins: any offset `k` whose slot costs as much
/// as the slot returned is reached no earlier than the returned one, which is the hour
/// `(h + b) % 24` on the day `(d + (h + b) / 24) % 7` for some `b <= k`.
pub proof fn law_best_time_first_on_ties(
    slot_keys: Seq<u64>,
    current_hour: usize,
    current_day: usize,
    hours_ahead: usize,
    r: (usize, usize, bool),
    k: int,
) -> (b: int)
    requires
        slot_keys.len() == 24 * 7,
        hours_ahead > 0 ==> r.2 && exists|best: int|
            is_best_offset(slot_keys, current_hour as int, current_day as int, hours_ahead as int, best)
                && r.0 == hour_after(current_hour as int, best) && r.1 == day_after(
                current_hour as int,
                current_day as int,
                best,
            ),
        0 <= k < hours_ahead,
        slot_keys[((current_hour + k) % 24) * 7 + (current_day + (current_hour + k) / 24) % 7]
            == slot_keys[r.0 * 7 + r.1],
    ensures
        0 <= b <= k,
        r.0 == (current_hour + b) % 24,
        r.1 == (current_day + (current_hour + b) / 24) % 7,
{
    let h = current_hour as int;
    let d = current_day as int;
    let best = choose|best: int|
        is_best_offset(slot_keys, h, d, hours_ahead as int, best) && r.0 == hour_after(h, best)
            && r.1 == day_after(h, d, best);
    lemma_slot_of_reached(h, d, best);
    lemma_slot_of_reached(h, d, k);
    if k < best {
        assert(key_after(slot_keys, h, d, best) < key_after(slot_keys, h, d, k));
    }
    best
}

/// The slot of the hour reached `i` hours after `hour` on `day` is
/// `((hour + i) % 24) * 7 + (day + (hour + i) / 24) % 7`.
proof fn lemma_slot_of_reached(hour: int, day: int, i: int)
    ensures
        slot_of(hour_after(hour, i), day_after(hour, day, i)) == ((hour + i) % 24) * 7 + (day + (
        hour + i) / 24) % 7,
        0 <= (hour + i) % 24 < 24,
        0 <= (day + (hour + i) / 24) % 7 < 7,
{
    vstd::arithmetic::div_mod::lemma_mod_twice(hour + i, 24);
    vstd::arithmetic::div_mod::lemma_mod_twice(day + (hour + i) / 24, 7);
    vstd::arithmetic::div_mod::lemma_mod_bound(hour + i, 24);
    vstd::arithmetic::div_mod::lemma_mod_bound(day + (hour + i) / 24, 7);
}

} // verus!

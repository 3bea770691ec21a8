//! The depreciation engine: a pure function of an asset snapshot and a
//! period, computing value decay for the period under the asset's method.
use vstd::prelude::*;
use crate::date::{format_date, months_between, spec_months_between, CalendarDate};
use crate::error::{IclError, IclResult};
use crate::types::{DepreciationMethod, IntelligenceAsset, RATE_CAP, VALUE_CAP};

verus! {

/// Linear decay: the depreciable base spread evenly over the useful life,
/// capped so the value never falls below the salvage floor.
pub open spec fn spec_linear(
    initial: int,
    current: int,
    life: int,
    months: int,
    salvage: int,
) -> (int, int) {
    let candidate = (initial - salvage) * months / life;
    let capped = if candidate < current - salvage {
        candidate
    } else {
        current - salvage
    };
    let amount = if capped > 0 {
        capped
    } else {
        0
    };
    let remaining = if current - amount > salvage {
        current - amount
    } else {
        salvage
    };
    (amount, remaining)
}

/// Declining-balance decay, month by month: each month takes the current
/// value times the monthly rate; when a month would fall below the salvage
/// floor, only the remainder down to the floor is taken and decay stops.
/// The rate is `rate / 100` per `life` months.
pub open spec fn spec_declining(
    current: int,
    salvage: int,
    rate: int,
    life: int,
    months: nat,
) -> (int, int)
    decreases months,
{
    if months == 0 {
        (0, current)
    } else {
        let monthly = current * rate / (100 * life);
        if current - monthly < salvage {
            (current - salvage, salvage)
        } else {
            let rest = spec_declining(current - monthly, salvage, rate, life, (months - 1) as nat);
            (monthly + rest.0, rest.1)
        }
    }
}

/// The result of a successful depreciation call: no change for an empty
/// period, otherwise the method's decay of the book value, floored at the
/// salvage value.
pub open spec fn spec_calculate(
    method: DepreciationMethod,
    initial: int,
    current: int,
    life: int,
    months: int,
    salvage: int,
    rate: int,
) -> (int, int) {
    if months <= 0 {
        (0, current)
    } else {
        match method {
            DepreciationMethod::Linear => spec_linear(initial, current, life, months, salvage),
            DepreciationMethod::DecliningBalance => {
                let p = spec_declining(current, salvage, rate, life, months as nat);
                (p.0, if p.1 > salvage {
                    p.1
                } else {
                    salvage
                })
            },
        }
    }
}

/// Computes linear depreciation over the whole months between two dates.
pub fn linear_depreciation(
    asset: &IntelligenceAsset,
    start_date: CalendarDate,
    end_date: CalendarDate,
    salvage_value: i64,
) -> (r: IclResult<(i64, i64)>)
    requires
        asset@.wf(),
        start_date.valid(),
        end_date.valid(),
        0 <= salvage_value <= asset@.initial_value,
    ensures
        r matches Ok(p) && (p.0 as int, p.1 as int) == spec_calculate(
            DepreciationMethod::Linear,
            asset@.initial_value,
            asset@.book_value(),
            asset@.useful_life_months,
            spec_months_between(start_date, end_date),
            salvage_value as int,
            0,
        ),
{
    let months = months_between(start_date, end_date);
    let current = match asset.current_value {
        Option::Some(v) => v,
        Option::None => asset.initial_value,
    };
    if months <= 0 {
        return Ok((0i64, current));
    }
    let base = asset.initial_value - salvage_value;
    proof {
        assert(base * months <= VALUE_CAP as int * 120000) by (nonlinear_arith)
            requires
                0 <= base <= VALUE_CAP as int,
                0 < months <= 120000,
        ;
        assert(base * months >= 0) by (nonlinear_arith)
            requires
                base >= 0,
                months > 0,
        ;
    }
    let candidate = (base * (months as i64)) / (asset.useful_life_months as i64);
    let capped = if candidate < current - salvage_value {
        candidate
    } else {
        current - salvage_value
    };
    let amount = if capped > 0 {
        capped
    } else {
        0i64
    };
    let remaining = if current - amount > salvage_value {
        current - amount
    } else {
        salvage_value
    };
    Ok((amount, remaining))
}

/// Computes declining-balance depreciation over the whole months between
/// two dates, iterating month by month as the method requires.
#[verifier::loop_isolation(false)]
pub fn declining_balance_depreciation(
    asset: &IntelligenceAsset,
    start_date: CalendarDate,
    end_date: CalendarDate,
    salvage_value: i64,
    rate_multiplier: u64,
) -> (r: IclResult<(i64, i64)>)
    requires
        asset@.wf(),
        start_date.valid(),
        end_date.valid(),
        0 <= salvage_value <= asset@.initial_value,
        rate_multiplier <= RATE_CAP,
    ensures
        r matches Ok(p) && (p.0 as int, p.1 as int) == spec_calculate(
            DepreciationMethod::DecliningBalance,
            asset@.initial_value,
            asset@.book_value(),
            asset@.useful_life_months,
            spec_months_between(start_date, end_date),
            salvage_value as int,
            rate_multiplier as int,
        ),
{
    let months = months_between(start_date, end_date);
    let start_value = match asset.current_value {
        Option::Some(v) => v,
        Option::None => asset.initial_value,
    };
    if months <= 0 {
        return Ok((0i64, start_value));
    }
    let rate = rate_multiplier as i64;
    let denom = 100i64 * (asset.useful_life_months as i64);
    let ghost full = spec_declining(
        start_value as int,
        salvage_value as int,
        rate as int,
        asset@.useful_life_months,
        months as nat,
    );
    let mut current: i64 = start_value;
    let mut amount: i64 = 0;
    let mut k: i32 = 0;
    let mut stopped = false;
    while k < months && !stopped
        invariant
            0 <= k <= months,
            0 <= current <= VALUE_CAP,
            amount == start_value - current,
            !stopped ==> full == {
                let rest = spec_declining(
                    current as int,
                    salvage_value as int,
                    rate as int,
                    asset@.useful_life_months,
                    (months - k) as nat,
                );
                (amount + rest.0, rest.1)
            },
            stopped ==> full == (amount as int, current as int) && current == salvage_value,
        decreases months - k,
    {
        proof {
            assert(current * rate <= VALUE_CAP as int * RATE_CAP as int) by (nonlinear_arith)
                requires
                    0 <= current <= VALUE_CAP,
                    0 <= rate <= RATE_CAP,
            ;
            assert(current * rate >= 0) by (nonlinear_arith)
                requires
                    current >= 0,
                    rate >= 0,
            ;
        }
        let monthly = current * rate / denom;
        if current - monthly < salvage_value {
            amount = amount + (current - salvage_value);
            current = salvage_value;
            stopped = true;
        } else {
            amount = amount + monthly;
            current = current - monthly;
        }
        k = k + 1;
    }
    let remaining = if current > salvage_value {
        current
    } else {
        salvage_value
    };
    Ok((amount, remaining))
}

/// Computes the depreciation for a period: amount taken and the new value.
/// The period must run forward, and the salvage floor must be non-negative
/// and no more than the initial value; each misuse is reported as its own
/// error.
pub fn calculate_depreciation(
    asset: &IntelligenceAsset,
    start_date: CalendarDate,
    end_date: CalendarDate,
    salvage_value: i64,
    rate_multiplier: u64,
) -> (r: IclResult<(i64, i64)>)
    requires
        asset@.wf(),
        start_date.valid(),
        end_date.valid(),
        rate_multiplier <= RATE_CAP,
    ensures
        !start_date.before(end_date) ==> (r matches Err(e) && (e matches
            IclError::InvalidDateRange { start, end } && start@ == crate::date::date_chars(
            start_date,
        ) && end@ == crate::date::date_chars(end_date))),
        start_date.before(end_date) && salvage_value < 0 ==> (r matches Err(e) && (e matches
            IclError::DepreciationError(m) && m@ == "Salvage value cannot be negative"@)),
        start_date.before(end_date) && salvage_value >= 0 && salvage_value > asset@.initial_value
            ==> (r matches Err(e) && (e matches IclError::DepreciationError(m) && m@
            == "Salvage value cannot exceed initial value"@)),
        start_date.before(end_date) && 0 <= salvage_value <= asset@.initial_value ==> (r matches Ok(
            p,
        ) && (p.0 as int, p.1 as int) == spec_calculate(
            asset@.depreciation_method,
            asset@.initial_value,
            asset@.book_value(),
            asset@.useful_life_months,
            spec_months_between(start_date, end_date),
            salvage_value as int,
            rate_multiplier as int,
        )),
{
    if !start_date.earlier(&end_date) {
        return Err(
            IclError::InvalidDateRange {
                start: format_date(&start_date),
                end: format_date(&end_date),
            },
        );
    }
    if salvage_value < 0 {
        return Err(IclError::DepreciationError("Salvage value cannot be negative".to_owned()));
    }
    if salvage_value > asset.initial_value {
        return Err(
            IclError::DepreciationError("Salvage value cannot exceed initial value".to_owned()),
        );
    }
    match asset.depreciation_method {
        DepreciationMethod::Linear => linear_depreciation(
            asset,
            start_date,
            end_date,
            salvage_value,
        ),
        DepreciationMethod::DecliningBalance => declining_balance_depreciation(
            asset,
            start_date,
            end_date,
            salvage_value,
            rate_multiplier,
        ),
    }
}

/// Linear depreciation over exactly the useful life with a zero salvage
/// floor takes the whole initial value: the asset ends worthless.
pub proof fn lemma_linear_full_life(initial: int, life: int)
    requires
        0 < initial,
        0 < life,
    ensures
        spec_linear(initial, initial, life, life, 0) == (initial, 0int),
{
    assert(initial * life / life == initial) by (nonlinear_arith)
        requires
            0 < initial,
            0 < life,
    ;
}

/// No depreciation call drives the value below the salvage floor: any
/// period that depreciates at all ends at or above the floor, and an empty
/// period leaves the value unchanged.
pub proof fn lemma_never_below_salvage(
    method: DepreciationMethod,
    initial: int,
    current: int,
    life: int,
    months: int,
    salvage: int,
    rate: int,
)
    ensures
        months > 0 ==> spec_calculate(method, initial, current, life, months, salvage, rate).1
            >= salvage,
        months <= 0 ==> spec_calculate(method, initial, current, life, months, salvage, rate).1
            == current,
{
}

/// Declining-balance decay never raises the value: the result stays at or
/// below the starting value and at or above the salvage floor.
pub proof fn lemma_declining_bounded(current: int, salvage: int, rate: int, life: int, months: nat)
    requires
        0 <= salvage <= current,
        rate >= 0,
        life > 0,
    ensures
        salvage <= spec_declining(current, salvage, rate, life, months).1 <= current,
    decreases months,
{
    if months > 0 {
        let monthly = current * rate / (100 * life);
        assert(current * rate >= 0) by (nonlinear_arith)
            requires
                current >= 0,
                rate >= 0,
        ;
        vstd::arithmetic::div_mod::lemma_div_pos_is_pos(current * rate, 100 * life);
        if current - monthly >= salvage {
            lemma_declining_bounded(current - monthly, salvage, rate, life, (months - 1) as nat);
        }
    }
}

/// While the value sits strictly above the salvage floor and a month's
/// decay is at least one unit, a declining-balance call strictly lowers
/// the value.
pub proof fn lemma_declining_strictly_decreases(
    current: int,
    salvage: int,
    rate: int,
    life: int,
    months: nat,
)
    requires
        0 <= salvage < current,
        rate >= 0,
        life > 0,
        months >= 1,
        current * rate / (100 * life) >= 1,
    ensures
        spec_declining(current, salvage, rate, life, months).1 < current,
{
    let monthly = current * rate / (100 * life);
    if current - monthly >= salvage {
        lemma_declining_bounded(current - monthly, salvage, rate, life, (months - 1) as nat);
    }
}


/// Declining-balance decay keeps the value between the smaller and the
/// larger of the starting value and the salvage floor.
pub proof fn lemma_declining_value_range(
    current: int,
    salvage: int,
    rate: int,
    life: int,
    months: nat,
)
    requires
        0 <= salvage,
        0 <= current,
        rate >= 0,
        life > 0,
    ensures
        spec_declining(current, salvage, rate, life, months).1 <= if current > salvage {
            current
        } else {
            salvage
        },
        spec_declining(current, salvage, rate, life, months).1 >= if current < salvage {
            current
        } else {
            salvage
        },
    decreases months,
{
    if months > 0 {
        let monthly = current * rate / (100 * life);
        assert(current * rate >= 0) by (nonlinear_arith)
            requires
                current >= 0,
                rate >= 0,
        ;
        vstd::arithmetic::div_mod::lemma_div_pos_is_pos(current * rate, 100 * life);
        if current - monthly >= salvage {
            lemma_declining_value_range(current - monthly, salvage, rate, life, (months - 1) as nat);
        }
    }
}

/// The amount a declining-balance decay takes is exactly the drop in
/// value.
pub proof fn lemma_declining_amount_is_drop(
    current: int,
    salvage: int,
    rate: int,
    life: int,
    months: nat,
)
    ensures
        spec_declining(current, salvage, rate, life, months).0 == current - spec_declining(
            current,
            salvage,
            rate,
            life,
            months,
        ).1,
    decreases months,
{
    if months > 0 {
        let monthly = current * rate / (100 * life);
        if current - monthly >= salvage {
            lemma_declining_amount_is_drop(current - monthly, salvage, rate, life, (months - 1) as nat);
        }
    }
}

/// A declining-balance depreciation call strictly lowers the value while
/// it sits above the salvage floor, and takes a positive amount, provided
/// a month's decay comes to at least one unit.
pub proof fn lemma_declining_call_strictly_decreases(
    initial: int,
    current: int,
    life: int,
    months: int,
    salvage: int,
    rate: int,
)
    requires
        0 <= salvage < current,
        rate >= 0,
        life > 0,
        months >= 1,
        current * rate / (100 * life) >= 1,
    ensures
        spec_calculate(
            DepreciationMethod::DecliningBalance,
            initial,
            current,
            life,
            months,
            salvage,
            rate,
        ).1 < current,
        spec_calculate(
            DepreciationMethod::DecliningBalance,
            initial,
            current,
            life,
            months,
            salvage,
            rate,
        ).0 > 0,
{
    lemma_declining_strictly_decreases(current, salvage, rate, life, months as nat);
    lemma_declining_bounded(current, salvage, rate, life, months as nat);
    lemma_declining_amount_is_drop(current, salvage, rate, life, months as nat);
}

/// The result of a successful depreciation call stays between zero and the
/// initial value whenever the inputs do.
pub proof fn lemma_calculate_bounds(
    method: DepreciationMethod,
    initial: int,
    current: int,
    life: int,
    months: int,
    salvage: int,
    rate: int,
)
    requires
        0 <= salvage <= initial,
        0 <= current <= initial,
        life > 0,
        rate >= 0,
    ensures
        0 <= spec_calculate(method, initial, current, life, months, salvage, rate).1 <= initial,
{
    if months > 0 && method is DecliningBalance {
        lemma_declining_value_range(current, salvage, rate, life, months as nat);
    }
}

} // verus!

use vstd::prelude::*;

use crate::account::{address_eq, Account, AccountView, Address};
use crate::check::Check;
use crate::error::BOQError;
use crate::solana::{
    spec_token_account_valid, spec_token_amount, spec_token_mint, spec_token_owner,
    unpack_token_account,
};
use crate::state::{
    spec_employee_of, spec_employee_valid, BOQAccountType, BOQEmployee, BOQEmployer, BOQShift,
    EmployeeView, EmployerView, ShiftView,
};
use vstd::arithmetic::div_mod::{
    lemma_fundamental_div_mod, lemma_fundamental_div_mod_converse, lemma_mod_division_less_than_divisor,
};

verus! {

// ---------------------------------------------------------------------------
// The tiered reward formula
// ---------------------------------------------------------------------------

/// The slots an accrual may draw on: the elapsed slots, capped at one epoch.
pub open spec fn spec_available(elapsed: int, slots_per_shift: int) -> int {
    if elapsed <= slots_per_shift {
        elapsed
    } else {
        slots_per_shift
    }
}

/// The escalating bonus: each full epoch of `slots_per_shift` slots already
/// accumulated raises the per-slot bonus by one `inflation_rate` step, and an
/// accrual window that straddles an epoch boundary is split between the two
/// epoch multipliers.
pub open spec fn spec_inflation_reward(
    inflation_rate: int,
    total_slots: int,
    available: int,
    slots_per_shift: int,
) -> int
    recommends
        slots_per_shift > 0,
{
    let new_total = total_slots + available;
    if new_total > slots_per_shift {
        let current_shift = total_slots / slots_per_shift;
        let next_shift = current_shift + 1;
        let boundary = next_shift * slots_per_shift;
        let next_shift_slots = if new_total > boundary {
            new_total % slots_per_shift
        } else {
            0
        };
        let current_shift_slots = available - next_shift_slots;
        inflation_rate * current_shift_slots * current_shift + inflation_rate * next_shift_slots
            * next_shift
    } else {
        0
    }
}

/// The full reward of one accrual: the base rate over the available slots,
/// plus the escalating bonus.
pub open spec fn spec_reward(er: EmployerView, total_slots: int, available: int) -> int {
    er.base_rate_per_slot * available + spec_inflation_reward(
        er.inflation_rate_per_slot as int,
        total_slots,
        available,
        er.slots_per_shift as int,
    )
}

/// Whether every intermediate value of the reward computation fits the
/// 64-bit counters, in the order the computation forms them. An accrual on
/// which this fails aborts the whole request rather than wrap.
pub open spec fn spec_fits_core(er: EmployerView, total_slots: int, available: int) -> bool {
    let sps = er.slots_per_shift as int;
    let rate = er.inflation_rate_per_slot as int;
    let base = er.base_rate_per_slot * available;
    let new_total = total_slots + available;
    &&& base <= u64::MAX
    &&& new_total <= u64::MAX
    &&& (new_total > sps ==> {
        let current_shift = total_slots / sps;
        let next_shift = current_shift + 1;
        let next_shift_slots = if new_total > next_shift * sps {
            new_total % sps
        } else {
            0
        };
        let current_shift_slots = available - next_shift_slots;
        &&& next_shift <= u64::MAX
        &&& next_shift * sps <= u64::MAX
        &&& rate * current_shift_slots <= u64::MAX
        &&& rate * current_shift_slots * current_shift <= u64::MAX
        &&& rate * next_shift_slots <= u64::MAX
        &&& rate * next_shift_slots * next_shift <= u64::MAX
        &&& rate * current_shift_slots * current_shift + rate * next_shift_slots * next_shift
            <= u64::MAX
    })
    &&& base + spec_inflation_reward(rate, total_slots, available, sps) <= u64::MAX
}

/// An accrual window that crosses into the next epoch leaves fewer than
/// `available` slots on the far side of the boundary.
proof fn lemma_boundary_split(total_slots: int, available: int, slots_per_shift: int)
    requires
        slots_per_shift > 0,
        0 <= total_slots,
        0 < available <= slots_per_shift,
        total_slots + available > (total_slots / slots_per_shift + 1) * slots_per_shift,
    ensures
        0 <= (total_slots + available) % slots_per_shift < available,
{
    let sps = slots_per_shift;
    let cs = total_slots / sps;
    let nt = total_slots + available;
    lemma_fundamental_div_mod(total_slots, sps);
    lemma_mod_division_less_than_divisor(total_slots, sps);
    let rem = total_slots % sps;
    assert((cs + 1) * sps == cs * sps + sps) by (nonlinear_arith);
    assert(sps * cs == cs * sps) by (nonlinear_arith);
    let r = rem + available - sps;
    assert(nt == (cs + 1) * sps + r);
    assert(r > 0);
    assert(r < available);
    lemma_fundamental_div_mod_converse(nt, sps, cs + 1, r);
}

/// A reward is never negative: the base part is a product of non-negative
/// counters, and the bonus splits the window into two non-negative parts.
pub proof fn lemma_reward_nonneg(er: EmployerView, total_slots: int, available: int)
    requires
        0 <= total_slots,
        0 < available <= er.slots_per_shift,
    ensures
        0 <= spec_inflation_reward(
            er.inflation_rate_per_slot as int,
            total_slots,
            available,
            er.slots_per_shift as int,
        ),
        0 <= spec_reward(er, total_slots, available),
{
    let sps = er.slots_per_shift as int;
    let rate = er.inflation_rate_per_slot as int;
    let nt = total_slots + available;
    assert(0 <= er.base_rate_per_slot * available) by (nonlinear_arith)
        requires
            0 <= er.base_rate_per_slot,
            0 < available,
    ;
    if nt > sps {
        let cs = total_slots / sps;
        let ns = cs + 1;
        let boundary = ns * sps;
        vstd::arithmetic::div_mod::lemma_div_pos_is_pos(total_slots, sps);
        let nss = if nt > boundary {
            nt % sps
        } else {
            0
        };
        if nt > boundary {
            lemma_boundary_split(total_slots, available, sps);
        }
        let css = available - nss;
        assert(0 <= nss && 0 <= css);
        assert(0 <= rate * css * cs && 0 <= rate * nss * ns) by (nonlinear_arith)
            requires
                0 <= rate && 0 <= css && 0 <= cs && 0 <= nss && 0 <= ns,
        ;
    }
}

/// The outcome of one successful accrual on one employee: the slots drawn and
/// the reward they earn.
#[derive(Clone, Copy, Debug, PartialEq)]
pub struct Accrual {
    pub available: u64,
    pub reward: u64,
}

/// Computes one employee's accrual against an employer at `current_slot`.
///
/// Returns `Ok(None)` where no slot is available (a repeated call at the
/// accrual slot), the exact reward where the computation fits the 64-bit
/// counters, and fails the request where it does not or where the cursor
/// lies in the future.
pub fn accrue(er: &BOQEmployer, e: &BOQEmployee, current_slot: u64) -> (r: Result<
    Option<Accrual>,
    BOQError,
>)
    ensures
        ({
            let sps = er@.slots_per_shift as int;
            let avail = spec_available(current_slot - e@.last_slot, sps);
            if e@.last_slot > current_slot {
                r == Err::<Option<Accrual>, BOQError>(BOQError::AssertionFailed)
            } else if avail == 0 {
                r == Ok::<Option<Accrual>, BOQError>(None)
            } else if !spec_fits_core(er@, e@.total_slots as int, avail) {
                r == Err::<Option<Accrual>, BOQError>(BOQError::AssertionFailed)
            } else {
                &&& 0 <= spec_reward(er@, e@.total_slots as int, avail) <= u64::MAX
                &&& r == Ok::<Option<Accrual>, BOQError>(
                    Some(
                        (Accrual {
                            available: avail as u64,
                            reward: spec_reward(er@, e@.total_slots as int, avail) as u64,
                        }),
                    ),
                )
            }
        }),
{
    if e.last_slot > current_slot {
        return Err(BOQError::AssertionFailed);
    }
    let elapsed = current_slot - e.last_slot;
    let available = if elapsed < er.slots_per_shift {
        elapsed
    } else {
        er.slots_per_shift
    };
    if available == 0 {
        return Ok(None);
    }
    let base = match er.base_rate_per_slot.checked_mul(available) {
        Some(v) => v,
        None => {
            return Err(BOQError::AssertionFailed);
        },
    };
    let new_total = match e.total_slots.checked_add(available) {
        Some(v) => v,
        None => {
            return Err(BOQError::AssertionFailed);
        },
    };
    let inflation: u64 = if new_total > er.slots_per_shift {
        let current_shift = e.total_slots / er.slots_per_shift;
        let next_shift = match current_shift.checked_add(1) {
            Some(v) => v,
            None => {
                return Err(BOQError::AssertionFailed);
            },
        };
        let boundary = match next_shift.checked_mul(er.slots_per_shift) {
            Some(v) => v,
            None => {
                return Err(BOQError::AssertionFailed);
            },
        };
        let next_shift_slots: u64 = if new_total > boundary {
            proof {
                lemma_boundary_split(
                    e@.total_slots as int,
                    available as int,
                    er@.slots_per_shift as int,
                );
            }
            new_total % er.slots_per_shift
        } else {
            0
        };
        let current_shift_slots = available - next_shift_slots;
        let p1 = match er.inflation_rate_per_slot.checked_mul(current_shift_slots) {
            Some(v) => v,
            None => {
                return Err(BOQError::AssertionFailed);
            },
        };
        let p1 = match p1.checked_mul(current_shift) {
            Some(v) => v,
            None => {
                return Err(BOQError::AssertionFailed);
            },
        };
        let p2 = match er.inflation_rate_per_slot.checked_mul(next_shift_slots) {
            Some(v) => v,
            None => {
                return Err(BOQError::AssertionFailed);
            },
        };
        let p2 = match p2.checked_mul(next_shift) {
            Some(v) => v,
            None => {
                return Err(BOQError::AssertionFailed);
            },
        };
        match p1.checked_add(p2) {
            Some(v) => v,
            None => {
                return Err(BOQError::AssertionFailed);
            },
        }
    } else {
        0
    };
    let reward = match base.checked_add(inflation) {
        Some(v) => v,
        None => {
            return Err(BOQError::AssertionFailed);
        },
    };
    proof {
        lemma_reward_nonneg(er@, e@.total_slots as int, available as int);
    }
    Ok(Some(Accrual { available, reward }))
}

// ---------------------------------------------------------------------------
// Batched accrual over token/employee pairs
// ---------------------------------------------------------------------------

/// One batch entry: the identity-token holding account and the employee
/// record account it vouches for.
pub struct EmployeePair {
    pub token: Account,
    pub employee: Account,
}

/// The mathematical model of a batch entry.
#[verifier::ext_equal]
pub ghost struct PairView {
    pub token: AccountView,
    pub employee: AccountView,
}

impl View for EmployeePair {
    type V = PairView;

    open spec fn view(&self) -> PairView {
        PairView { token: self.token@, employee: self.employee@ }
    }
}

/// What one batch entry does to the shift record: either it is skipped
/// (`None` update, zero reward), or it updates the employee's cursor and adds
/// its reward to the running sums, or it aborts the whole batch with an
/// error. A pair is skipped exactly where the token account does not hold
/// exactly one token for the shift's owner, or where no slot is available.
pub open spec fn spec_pair_step(
    program_id: Seq<u8>,
    er: EmployerView,
    sh: ShiftView,
    p: PairView,
    slot: u64,
) -> Result<(ShiftView, Option<EmployeeView>, int), BOQError> {
    let tok = p.token.data;
    if !spec_token_account_valid(tok) {
        Err(BOQError::MalformedInput)
    } else if !(spec_token_amount(tok) == 1 && spec_token_owner(tok) == sh.owner) {
        Ok((sh, None, 0))
    } else if p.employee.owner != program_id {
        Err(BOQError::WrongOwner)
    } else if !spec_employee_valid(p.employee.data) {
        Err(BOQError::MalformedInput)
    } else {
        let e = spec_employee_of(p.employee.data);
        if e.account_type != BOQAccountType::Employee {
            Err(BOQError::NotInitialized)
        } else if spec_token_mint(tok) != e.nft_mint {
            Err(BOQError::AddressMismatch)
        } else if e.last_slot > slot {
            Err(BOQError::AssertionFailed)
        } else {
            let avail = spec_available(slot - e.last_slot, er.slots_per_shift as int);
            if avail == 0 {
                Ok((sh, None, 0))
            } else if !spec_fits_core(er, e.total_slots as int, avail) {
                Err(BOQError::AssertionFailed)
            } else {
                let w = spec_reward(er, e.total_slots as int, avail);
                if sh.total_slots + avail > u64::MAX || sh.total_rewards + w > u64::MAX {
                    Err(BOQError::AssertionFailed)
                } else {
                    Ok(
                        (
                            ShiftView {
                                total_slots: (sh.total_slots + avail) as u64,
                                total_rewards: (sh.total_rewards + w) as u64,
                                ..sh
                            },
                            Some(
                                EmployeeView {
                                    last_slot: slot,
                                    total_slots: (e.total_slots + avail) as u64,
                                    ..e
                                },
                            ),
                            w,
                        ),
                    )
                }
            }
        }
    }
}

/// The whole batch over the first `n` pairs: the shift record threaded
/// through every step, the per-pair employee updates (`None` where a pair
/// was skipped), and the total reward — the sum of every step's reward,
/// aborting where the running total would overflow the minted amount.
pub open spec fn spec_batch(
    program_id: Seq<u8>,
    er: EmployerView,
    sh: ShiftView,
    pairs: Seq<PairView>,
    slot: u64,
    n: int,
) -> Result<(ShiftView, Seq<Option<EmployeeView>>, int), BOQError>
    recommends
        n <= pairs.len(),
    decreases n,
{
    if n <= 0 {
        Ok((sh, Seq::empty(), 0))
    } else {
        match spec_batch(program_id, er, sh, pairs, slot, n - 1) {
            Err(e) => Err(e),
            Ok((sh1, upds, total)) => match spec_pair_step(program_id, er, sh1, pairs[n - 1], slot) {
                Err(e) => Err(e),
                Ok((sh2, upd, w)) => if total + w > u64::MAX {
                    Err(BOQError::AssertionFailed)
                } else {
                    Ok((sh2, upds.push(upd), total + w))
                },
            },
        }
    }
}

/// Runs one batch entry against the threaded shift record: the exact
/// executable counterpart of `spec_pair_step`.
pub fn run_pair(
    program_id: &Address,
    er: &BOQEmployer,
    shift_rec: BOQShift,
    p: &EmployeePair,
    slot: u64,
) -> (r: Result<(BOQShift, Option<BOQEmployee>, u64), BOQError>)
    ensures
        r matches Ok((s2, upd, w)) ==> spec_pair_step(program_id@, er@, shift_rec@, p@, slot)
            == Ok::<(ShiftView, Option<EmployeeView>, int), BOQError>(
            (
                s2@,
                match upd {
                    Some(u) => Some(u@),
                    None => None::<EmployeeView>,
                },
                w as int,
            ),
        ),
        r matches Err(e) ==> spec_pair_step(program_id@, er@, shift_rec@, p@, slot) == Err::<
            (ShiftView, Option<EmployeeView>, int),
            BOQError,
        >(e),
{
    let tok = match unpack_token_account(p.token.data.as_slice()) {
        Ok(t) => t,
        Err(e) => {
            return Err(e);
        },
    };
    if !(tok.amount == 1 && address_eq(&tok.owner, &shift_rec.owner)) {
        return Ok((shift_rec, None, 0));
    }
    Check::owner(&p.employee, program_id)?;
    let emp = match BOQEmployee::from_bytes(p.employee.data.as_slice()) {
        Ok(x) => x,
        Err(e) => {
            return Err(e);
        },
    };
    Check::initialized(&emp, &p.employee)?;
    Check::pubkey(&tok.mint, &emp.nft_mint)?;
    match accrue(er, &emp, slot) {
        Err(e) => Err(e),
        Ok(None) => Ok((shift_rec, None, 0)),
        Ok(Some(acc)) => {
            let new_total_slots = match shift_rec.total_slots.checked_add(acc.available) {
                Some(v) => v,
                None => {
                    return Err(BOQError::AssertionFailed);
                },
            };
            let new_total_rewards = match shift_rec.total_rewards.checked_add(acc.reward) {
                Some(v) => v,
                None => {
                    return Err(BOQError::AssertionFailed);
                },
            };
            proof {
                assert(emp@.total_slots + acc.available <= u64::MAX);
            }
            let new_employee_total = emp.total_slots + acc.available;
            let upd = BOQEmployee { last_slot: slot, total_slots: new_employee_total, ..emp };
            let s2 = BOQShift {
                total_slots: new_total_slots,
                total_rewards: new_total_rewards,
                ..shift_rec
            };
            Ok((s2, Some(upd), acc.reward))
        },
    }
}

/// The models of a batch's entries.
pub open spec fn spec_pair_views(s: Seq<EmployeePair>) -> Seq<PairView> {
    s.map_values(|p: EmployeePair| p@)
}

/// The models of a batch's employee updates.
pub open spec fn spec_update_views(s: Seq<Option<BOQEmployee>>) -> Seq<Option<EmployeeView>> {
    s.map_values(
        |o: Option<BOQEmployee>|
            match o {
                Some(e) => Some(e@),
                None => None::<EmployeeView>,
            },
    )
}

/// A batch that fails on some prefix fails the whole run with that error.
pub proof fn lemma_batch_error_persists(
    program_id: Seq<u8>,
    er: EmployerView,
    sh: ShiftView,
    pairs: Seq<PairView>,
    slot: u64,
    j: int,
    m: int,
)
    requires
        0 <= j <= m,
        spec_batch(program_id, er, sh, pairs, slot, j) is Err,
    ensures
        spec_batch(program_id, er, sh, pairs, slot, m) == spec_batch(
            program_id,
            er,
            sh,
            pairs,
            slot,
            j,
        ),
    decreases m - j,
{
    if m > j {
        lemma_batch_error_persists(program_id, er, sh, pairs, slot, j, m - 1);
    }
}

} // verus!

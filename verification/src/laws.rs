use vstd::prelude::*;

use crate::engine::{
    lemma_reward_nonneg, spec_available, spec_batch, spec_fits_core, spec_inflation_reward,
    spec_pair_step, spec_reward, PairView,
};
use crate::error::BOQError;
use crate::solana::{spec_token_account_valid, spec_token_amount, spec_token_mint, spec_token_owner};
use crate::state::{
    spec_employee_of, spec_employee_valid, spec_new_employer, BOQAccountType, EmployeeView,
    EmployerView, ShiftView,
};

verus! {

/// A well-capacitated employer record never counts more employees than its
/// cap: `0 <= employees <= max_employees`.
pub proof fn lemma_employer_capacity(v: EmployerView)
    requires
        v.capacity_ok(),
    ensures
        0 <= v.employees <= v.max_employees,
{
}

/// Initialization establishes the capacity invariant: a fresh employer
/// record counts zero employees.
pub proof fn lemma_new_employer_capacity(
    bump: u8,
    is_active: bool,
    max_shifts: u16,
    max_employees: u16,
    start_slot: u64,
    slots_per_shift: u64,
    base_rate_per_slot: u64,
    token_mint: Seq<u8>,
    collection_mint: Seq<u8>,
)
    ensures
        spec_new_employer(
            bump,
            is_active,
            max_shifts,
            max_employees,
            start_slot,
            slots_per_shift,
            base_rate_per_slot,
            token_mint,
            collection_mint,
        ).capacity_ok(),
{
}

/// Employee creation preserves the capacity invariant: the counter is only
/// ever incremented below the cap.
pub proof fn lemma_employee_creation_preserves_capacity(v: EmployerView)
    requires
        v.capacity_ok(),
        v.employees < v.max_employees,
    ensures
        (EmployerView { employees: (v.employees + 1) as u16, ..v }).capacity_ok(),
{
}

/// The accrual window is fixed at creation: `end_slot - start_slot` equals
/// `max_shifts * slots_per_shift` as the record is initialized, and the one
/// mutation an employer record ever sees — the employee counter moving —
/// leaves the window and the rates untouched, so the equation holds for the
/// record's whole lifetime.
pub proof fn lemma_accrual_window_fixed(
    bump: u8,
    is_active: bool,
    max_shifts: u16,
    max_employees: u16,
    start_slot: u64,
    slots_per_shift: u64,
    base_rate_per_slot: u64,
    token_mint: Seq<u8>,
    collection_mint: Seq<u8>,
)
    requires
        start_slot + max_shifts * slots_per_shift <= u64::MAX,
    ensures
        ({
            let v = spec_new_employer(
                bump,
                is_active,
                max_shifts,
                max_employees,
                start_slot,
                slots_per_shift,
                base_rate_per_slot,
                token_mint,
                collection_mint,
            );
            let counted = EmployerView { employees: (v.employees + 1) as u16, ..v };
            &&& v.end_slot - v.start_slot == max_shifts * slots_per_shift
            &&& counted.start_slot == v.start_slot
            &&& counted.end_slot == v.end_slot
            &&& counted.slots_per_shift == v.slots_per_shift
        }),
{
}

/// An employee's `total_slots` never decreases across accruals, and its
/// `last_slot` moves only when slots were actually available: a processed
/// pair advances the cursor to the accrual slot, and a skipped pair leaves
/// the record untouched.
pub proof fn lemma_employee_cursor_monotonic(
    program_id: Seq<u8>,
    er: EmployerView,
    sh: ShiftView,
    p: PairView,
    slot: u64,
)
    ensures
        spec_pair_step(program_id, er, sh, p, slot) matches Ok((s2, upd, w)) ==> (match upd {
            Some(v) => v.total_slots >= spec_employee_of(p.employee.data).total_slots
                && v.last_slot == slot,
            None => true,
        }),
{
}

/// A repeated accrual at the very slot of the last one finds no available
/// slot: it yields reward zero and mutates nothing — neither the employee's
/// cursor nor the shift's running sums.
pub proof fn lemma_repeat_accrual_is_noop(
    program_id: Seq<u8>,
    er: EmployerView,
    sh: ShiftView,
    p: PairView,
    slot: u64,
)
    requires
        spec_token_account_valid(p.token.data),
        spec_token_amount(p.token.data) == 1,
        spec_token_owner(p.token.data) == sh.owner,
        p.employee.owner == program_id,
        spec_employee_valid(p.employee.data),
        spec_employee_of(p.employee.data).account_type == BOQAccountType::Employee,
        spec_token_mint(p.token.data) == spec_employee_of(p.employee.data).nft_mint,
        spec_employee_of(p.employee.data).last_slot == slot,
    ensures
        spec_pair_step(program_id, er, sh, p, slot) == Ok::<
            (ShiftView, Option<EmployeeView>, int),
            BOQError,
        >((sh, None, 0)),
{
}

/// Every reward decomposes as `base_reward + inflation_reward`, and both
/// parts are non-negative.
pub proof fn lemma_reward_decomposition(er: EmployerView, total_slots: int, available: int)
    requires
        0 <= total_slots,
        0 < available <= er.slots_per_shift,
    ensures
        spec_reward(er, total_slots, available) == er.base_rate_per_slot * available
            + spec_inflation_reward(
            er.inflation_rate_per_slot as int,
            total_slots,
            available,
            er.slots_per_shift as int,
        ),
        0 <= er.base_rate_per_slot * available,
        0 <= spec_inflation_reward(
            er.inflation_rate_per_slot as int,
            total_slots,
            available,
            er.slots_per_shift as int,
        ),
{
    lemma_reward_nonneg(er, total_slots, available);
    assert(0 <= er.base_rate_per_slot * available) by (nonlinear_arith)
        requires
            0 <= er.base_rate_per_slot,
            0 < available,
    ;
}

/// The sequence of rewards a batch's steps contribute, one per pair.
pub open spec fn spec_batch_rewards(
    program_id: Seq<u8>,
    er: EmployerView,
    sh: ShiftView,
    pairs: Seq<PairView>,
    slot: u64,
    n: int,
) -> Seq<int>
    recommends
        n <= pairs.len(),
        spec_batch(program_id, er, sh, pairs, slot, n) is Ok,
    decreases n,
{
    if n <= 0 {
        Seq::empty()
    } else {
        match spec_batch(program_id, er, sh, pairs, slot, n - 1) {
            Err(_) => Seq::empty(),
            Ok((sh1, _, _)) => match spec_pair_step(program_id, er, sh1, pairs[n - 1], slot) {
                Err(_) => Seq::empty(),
                Ok((_, _, w)) => spec_batch_rewards(program_id, er, sh, pairs, slot, n - 1).push(w),
            },
        }
    }
}

/// The sum of a sequence of integers.
pub open spec fn spec_sum(s: Seq<int>) -> int
    decreases s.len(),
{
    if s.len() == 0 {
        0
    } else {
        spec_sum(s.drop_last()) + s.last()
    }
}

/// A successful batch mints exactly the sum of its per-pair rewards: the
/// total handed to the mint equals `sum of reward_i` over the pairs, with
/// skipped pairs contributing zero.
pub proof fn lemma_batch_total_is_sum(
    program_id: Seq<u8>,
    er: EmployerView,
    sh: ShiftView,
    pairs: Seq<PairView>,
    slot: u64,
    n: int,
)
    requires
        0 <= n <= pairs.len(),
        spec_batch(program_id, er, sh, pairs, slot, n) is Ok,
    ensures
        spec_batch(program_id, er, sh, pairs, slot, n) matches Ok((s2, upds, total)) ==> total
            == spec_sum(spec_batch_rewards(program_id, er, sh, pairs, slot, n)),
    decreases n,
{
    if n > 0 {
        lemma_batch_total_is_sum(program_id, er, sh, pairs, slot, n - 1);
        let prev = spec_batch(program_id, er, sh, pairs, slot, n - 1);
        let rewards = spec_batch_rewards(program_id, er, sh, pairs, slot, n);
        assert(rewards.drop_last() == spec_batch_rewards(program_id, er, sh, pairs, slot, n - 1));
    }
}

/// A pair whose token account holds anything but exactly one token, or
/// holds it for someone other than the shift's owner, is skipped: it
/// contributes zero reward and leaves every record untouched.
pub proof fn lemma_skipped_pair_contributes_nothing(
    program_id: Seq<u8>,
    er: EmployerView,
    sh: ShiftView,
    p: PairView,
    slot: u64,
)
    requires
        spec_token_account_valid(p.token.data),
        !(spec_token_amount(p.token.data) == 1 && spec_token_owner(p.token.data) == sh.owner),
    ensures
        spec_pair_step(program_id, er, sh, p, slot) == Ok::<
            (ShiftView, Option<EmployeeView>, int),
            BOQError,
        >((sh, None, 0)),
{
}

/// A mint mismatch is no skip: a pair whose employee record names another
/// mint than its token account aborts the whole batch.
pub proof fn lemma_mint_mismatch_aborts(
    program_id: Seq<u8>,
    er: EmployerView,
    sh: ShiftView,
    p: PairView,
    slot: u64,
)
    requires
        spec_token_account_valid(p.token.data),
        spec_token_amount(p.token.data) == 1,
        spec_token_owner(p.token.data) == sh.owner,
        p.employee.owner == program_id,
        spec_employee_valid(p.employee.data),
        spec_employee_of(p.employee.data).account_type == BOQAccountType::Employee,
        spec_token_mint(p.token.data) != spec_employee_of(p.employee.data).nft_mint,
    ensures
        spec_pair_step(program_id, er, sh, p, slot) == Err::<
            (ShiftView, Option<EmployeeView>, int),
            BOQError,
        >(BOQError::AddressMismatch),
{
}

} // verus!

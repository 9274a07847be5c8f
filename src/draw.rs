use vstd::prelude::*;

use crate::raffle::copy_numbers;
use crate::types::{Number, RaffleId};
use crate::worker::ContractError;

verus! {

/// Relies on `pink_extension::vrf`: random bytes derived from `salt` and
/// the calling contract's own key. Nothing is promised of them, not even
/// their length.
#[verifier::external_body]
pub(crate) fn vrf_bytes(salt: &Vec<u8>) -> Vec<u8> {
    pink_extension::vrf(salt.as_slice())
}

/// The value of eight bytes read as a little-endian unsigned integer.
pub open spec fn le_u64(b: Seq<u8>) -> int {
    b[0] + b[1] * 0x100 + b[2] * 0x10000 + b[3] * 0x1000000 + b[4] * 0x100000000 + b[5]
        * 0x10000000000 + b[6] * 0x1000000000000 + b[7] * 0x100000000000000
}

/// The number in `[min, max]` that random bytes `output` select.
pub open spec fn number_from(output: Seq<u8>, min: Number, max: Number) -> Result<
    Number,
    ContractError,
> {
    if output.len() < 8 {
        Err(ContractError::InvalidRandomOutput)
    } else if min > max {
        Err(ContractError::SubOverFlow)
    } else {
        Ok((le_u64(output) % (max - min + 1) + min) as Number)
    }
}

/// The four bytes of `n`, most significant first.
pub open spec fn be_bytes(n: u32) -> Seq<u8> {
    seq![
        (n / 0x1000000) as u8,
        (n / 0x10000 % 0x100) as u8,
        (n / 0x100 % 0x100) as u8,
        (n % 0x100) as u8,
    ]
}

/// The salt of the `i`-th attempt of the draw of `raffle_id` for the target
/// contract `contract_id`.
pub open spec fn salt_of(i: u8, raffle_id: RaffleId, contract_id: Seq<u8>) -> Seq<u8> {
    seq![i] + be_bytes(raffle_id) + contract_id
}

/// One attempt of a draw: the number that the random bytes `output` select
/// is kept unless `acc` holds it already.
pub open spec fn step(acc: Seq<Number>, output: Seq<u8>, min: Number, max: Number) -> Result<
    Seq<Number>,
    ContractError,
> {
    match number_from(output, min, max) {
        Err(e) => Err(e),
        Ok(n) => Ok(
            if acc.contains(n) {
                acc
            } else {
                acc.push(n)
            },
        ),
    }
}

/// The draw from attempt `i` on, with `acc` drawn so far, attempt `j` using
/// the random bytes `outputs[j]`: attempts go on until `count` numbers are
/// kept; the attempt counter is a byte, and running past it is an error.
pub open spec fn draw_from(
    outputs: Seq<Seq<u8>>,
    count: u8,
    min: Number,
    max: Number,
    i: nat,
    acc: Seq<Number>,
) -> Result<Seq<Number>, ContractError>
    decreases 256 - i,
{
    if acc.len() >= count {
        Ok(acc)
    } else if i >= 256 {
        Err(ContractError::AddOverFlow)
    } else {
        match step(acc, outputs[i as int], min, max) {
            Err(e) => Err(e),
            Ok(next) => if i == 255 {
                Err(ContractError::AddOverFlow)
            } else {
                draw_from(outputs, count, min, max, i + 1, next)
            },
        }
    }
}

/// The draw of `count` numbers in `[min, max]`, attempt `i` using the
/// random bytes `outputs[i]`.
pub open spec fn draw(outputs: Seq<Seq<u8>>, count: u8, min: Number, max: Number) -> Result<
    Seq<Number>,
    ContractError,
> {
    if min > max {
        Err(ContractError::MinGreaterThanMax)
    } else {
        draw_from(outputs, count, min, max, 0, seq![])
    }
}

/// A list of numbers, or the error, as a sequence.
pub open spec fn numbers_view(r: Result<Vec<Number>, ContractError>) -> Result<
    Seq<Number>,
    ContractError,
> {
    match r {
        Ok(v) => Ok(v@),
        Err(e) => Err(e),
    }
}

/// No number stands twice in `s`.
pub open spec fn distinct(s: Seq<Number>) -> bool {
    forall|i: int, j: int| 0 <= i < j < s.len() ==> s[i] != s[j]
}

/// Every number of `s` lies in `[min, max]`.
pub open spec fn within(s: Seq<Number>, min: Number, max: Number) -> bool {
    forall|i: int| 0 <= i < s.len() ==> min <= #[trigger] s[i] <= max
}

/// The number in `[min, max]` that the random bytes `output` select: the
/// first eight bytes, read as a little-endian integer, modulo the size of
/// the range, from `min`.
pub fn inner_get_number(output: &Vec<u8>, min: Number, max: Number) -> (r: Result<
    Number,
    ContractError,
>)
    ensures
        r == number_from(output@, min, max),
{
    if output.len() < 8 {
        return Err(ContractError::InvalidRandomOutput);
    }
    if min > max {
        return Err(ContractError::SubOverFlow);
    }
    let rand: u128 = output[0] as u128 + output[1] as u128 * 0x100 + output[2] as u128 * 0x10000
        + output[3] as u128 * 0x1000000 + output[4] as u128 * 0x100000000 + output[5] as u128
        * 0x10000000000 + output[6] as u128 * 0x1000000000000 + output[7] as u128
        * 0x100000000000000;
    let a: u128 = max as u128 - min as u128 + 1;
    let b: u128 = rand % a;
    let r: u128 = b + min as u128;
    Ok(r as Number)
}

/// One attempt of a draw: `numbers` with the number that the random bytes
/// `output` select added, unless it is there already.
pub fn draw_step(numbers: &Vec<Number>, output: &Vec<u8>, min: Number, max: Number) -> (r: Result<
    Vec<Number>,
    ContractError,
>)
    ensures
        numbers_view(r) == step(numbers@, output@, min, max),
{
    let number = match inner_get_number(output, min, max) {
        Ok(n) => n,
        Err(e) => return Err(e),
    };
    let mut next = copy_numbers(numbers);
    if !contains_number(numbers, number) {
        next.push(number);
    }
    Ok(next)
}

/// `numbers` holds `n`.
pub(crate) fn contains_number(numbers: &Vec<Number>, n: Number) -> (r: bool)
    ensures
        r == numbers@.contains(n),
{
    let mut k: usize = 0;
    while k < numbers.len()
        invariant
            k <= numbers@.len(),
            forall|j: int| 0 <= j < k ==> numbers@[j] != n,
        decreases numbers@.len() - k,
    {
        if numbers[k] == n {
            assert(numbers@[k as int] == n);
            return true;
        }
        k = k + 1;
    }
    false
}

/// `numbers` are the `winning` numbers, in any order: as many, and the same
/// set.
pub open spec fn same_numbers(winning: Seq<Number>, numbers: Seq<Number>) -> bool {
    &&& winning.len() == numbers.len()
    &&& forall|k: int| 0 <= k < numbers.len() ==> winning.contains(#[trigger] numbers[k])
    &&& forall|k: int| 0 <= k < winning.len() ==> numbers.contains(#[trigger] winning[k])
}

/// What verifying `numbers` against a draw gives.
pub open spec fn verify_outcome(drawn: Result<Seq<Number>, ContractError>, numbers: Seq<Number>) -> Result<
    bool,
    ContractError,
> {
    match drawn {
        Ok(winning) => Ok(same_numbers(winning, numbers)),
        Err(e) => Err(e),
    }
}

/// Whether `numbers` are the `winning` numbers, in any order.
pub fn numbers_match(winning: &Vec<Number>, numbers: &Vec<Number>) -> (r: bool)
    ensures
        r == same_numbers(winning@, numbers@),
{
    if winning.len() != numbers.len() {
        return false;
    }
    let mut k: usize = 0;
    while k < numbers.len()
        invariant
            k <= numbers@.len(),
            forall|j: int| 0 <= j < k ==> winning@.contains(#[trigger] numbers@[j]),
        decreases numbers@.len() - k,
    {
        if !contains_number(winning, numbers[k]) {
            return false;
        }
        k = k + 1;
    }
    let mut k: usize = 0;
    while k < winning.len()
        invariant
            k <= winning@.len(),
            forall|j: int| 0 <= j < k ==> numbers@.contains(#[trigger] winning@[j]),
        decreases winning@.len() - k,
    {
        if !contains_number(numbers, winning[k]) {
            return false;
        }
        k = k + 1;
    }
    true
}

/// The salt of the `i`-th attempt of a draw.
pub fn draw_salt(i: u8, raffle_id: RaffleId, contract_id: &[u8; 32]) -> (r: Vec<u8>)
    ensures
        r@ == salt_of(i, raffle_id, contract_id@),
{
    let mut salt: Vec<u8> = Vec::new();
    salt.push(i);
    salt.push((raffle_id / 0x1000000) as u8);
    salt.push((raffle_id / 0x10000 % 0x100) as u8);
    salt.push((raffle_id / 0x100 % 0x100) as u8);
    salt.push((raffle_id % 0x100) as u8);
    let mut k: usize = 0;
    while k < 32
        invariant
            k <= 32,
            salt@ == seq![i] + be_bytes(raffle_id) + contract_id@.subrange(0, k as int),
        decreases 32 - k,
    {
        salt.push(contract_id[k]);
        k = k + 1;
        assert(contract_id@.subrange(0, k as int) =~= contract_id@.subrange(0, k - 1).push(
            contract_id@[k - 1],
        ));
        assert(salt@ =~= seq![i] + be_bytes(raffle_id) + contract_id@.subrange(0, k as int));
    }
    assert(contract_id@.subrange(0, 32) =~= contract_id@);
    salt
}

pub(crate) proof fn lemma_number_in_range(output: Seq<u8>, min: Number, max: Number)
    requires
        number_from(output, min, max) is Ok,
    ensures
        min <= number_from(output, min, max)->Ok_0 <= max,
{
    let m = max - min + 1;
    let x = le_u64(output);
    assert(0 <= x % m < m) by (nonlinear_arith)
        requires
            m > 0,
    ;
}

pub(crate) proof fn lemma_step_shape(acc: Seq<Number>, output: Seq<u8>, min: Number, max: Number)
    requires
        distinct(acc),
        within(acc, min, max),
        step(acc, output, min, max) is Ok,
    ensures
        distinct(step(acc, output, min, max)->Ok_0),
        within(step(acc, output, min, max)->Ok_0, min, max),
        step(acc, output, min, max)->Ok_0.len() <= acc.len() + 1,
{
    lemma_number_in_range(output, min, max);
    let n = number_from(output, min, max)->Ok_0;
    let next = step(acc, output, min, max)->Ok_0;
    if !acc.contains(n) {
        assert forall|a: int, b: int| 0 <= a < b < next.len() implies next[a] != next[b] by {
            if b == acc.len() {
                assert(next[a] == acc[a]);
            }
        }
    }
    assert forall|a: int| 0 <= a < next.len() implies min <= #[trigger] next[a] <= max by {
        if a < acc.len() {
            assert(next[a] == acc[a]);
        }
    }
}

proof fn lemma_draw_from_shape(
    outputs: Seq<Seq<u8>>,
    count: u8,
    min: Number,
    max: Number,
    i: nat,
    acc: Seq<Number>,
)
    requires
        acc.len() <= count,
        distinct(acc),
        within(acc, min, max),
        draw_from(outputs, count, min, max, i, acc) is Ok,
    ensures
        ({
            let s = draw_from(outputs, count, min, max, i, acc)->Ok_0;
            s.len() == count && distinct(s) && within(s, min, max)
        }),
    decreases 256 - i,
{
    if acc.len() < count && i < 256 {
        lemma_step_shape(acc, outputs[i as int], min, max);
        let next = step(acc, outputs[i as int], min, max)->Ok_0;
        lemma_draw_from_shape(outputs, count, min, max, i + 1, next);
    }
}

/// Whenever a draw succeeds, it gives exactly the requested count of
/// distinct numbers, each within the range.
pub proof fn lemma_draw_shape(outputs: Seq<Seq<u8>>, count: u8, min: Number, max: Number)
    requires
        draw(outputs, count, min, max) is Ok,
    ensures
        ({
            let s = draw(outputs, count, min, max)->Ok_0;
            s.len() == count && distinct(s) && within(s, min, max)
        }),
{
    lemma_draw_from_shape(outputs, count, min, max, 0, seq![]);
}

proof fn lemma_draw_from_ok_or_exhausted(
    outputs: Seq<Seq<u8>>,
    count: u8,
    min: Number,
    max: Number,
    i: nat,
    acc: Seq<Number>,
)
    requires
        min <= max,
        forall|j: int| 0 <= j < outputs.len() ==> (#[trigger] outputs[j]).len() >= 8,
        outputs.len() == 256,
    ensures
        draw_from(outputs, count, min, max, i, acc) is Ok || draw_from(
            outputs,
            count,
            min,
            max,
            i,
            acc,
        ) == Err::<Seq<Number>, ContractError>(ContractError::AddOverFlow),
    decreases 256 - i,
{
    if acc.len() < count && i < 255 {
        let next = step(acc, outputs[i as int], min, max)->Ok_0;
        lemma_draw_from_ok_or_exhausted(outputs, count, min, max, i + 1, next);
    }
}

/// With random bytes of at least eight bytes each and a range that is not
/// empty, a draw either succeeds or runs out of attempts.
pub proof fn lemma_draw_ok_or_exhausted(
    outputs: Seq<Seq<u8>>,
    count: u8,
    min: Number,
    max: Number,
)
    requires
        min <= max,
        outputs.len() == 256,
        forall|j: int| 0 <= j < outputs.len() ==> (#[trigger] outputs[j]).len() >= 8,
    ensures
        draw(outputs, count, min, max) is Ok || draw(outputs, count, min, max) == Err::<
            Seq<Number>,
            ContractError,
        >(ContractError::AddOverFlow),
{
    lemma_draw_from_ok_or_exhausted(outputs, count, min, max, 0, seq![]);
}

proof fn lemma_distinct_within_len(s: Seq<Number>, min: Number, max: Number)
    requires
        min <= max,
        distinct(s),
        within(s, min, max),
    ensures
        s.len() <= max - min + 1,
{
    let t = s.map_values(|x: Number| x as int);
    assert(t.no_duplicates()) by {
        assert forall|i: int, j: int| 0 <= i < t.len() && 0 <= j < t.len() && i != j implies t[i]
            != t[j] by {
            if i < j {
                assert(s[i] != s[j]);
            } else {
                assert(s[j] != s[i]);
            }
        }
    }
    t.unique_seq_to_set();
    let range = vstd::set_lib::set_int_range(min as int, max + 1);
    vstd::set_lib::lemma_int_range(min as int, max + 1);
    assert(t.to_set().subset_of(range)) by {
        assert forall|x: int| t.to_set().contains(x) implies range.contains(x) by {
            let i = choose|i: int| 0 <= i < t.len() && t[i] == x;
            assert(min <= s[i] <= max);
        }
    }
    vstd::set_lib::lemma_len_subset(t.to_set(), range);
}

/// A draw never succeeds with more numbers than the range holds.
pub proof fn lemma_draw_needs_room(outputs: Seq<Seq<u8>>, count: u8, min: Number, max: Number)
    requires
        min <= max,
        count > max - min + 1,
    ensures
        draw(outputs, count, min, max) is Err,
{
    if draw(outputs, count, min, max) is Ok {
        lemma_draw_shape(outputs, count, min, max);
        lemma_distinct_within_len(draw(outputs, count, min, max)->Ok_0, min, max);
    }
}

/// A draw depends on the random bytes, the count and the range alone: the
/// same bytes give the same draw.
pub proof fn lemma_draw_deterministic(
    first_outputs: Seq<Seq<u8>>,
    second_outputs: Seq<Seq<u8>>,
    count: u8,
    min: Number,
    max: Number,
)
    requires
        first_outputs == second_outputs,
    ensures
        draw(first_outputs, count, min, max) == draw(second_outputs, count, min, max),
{
}

} // verus!

//! The calculator backend: a small arithmetic state machine driven by the
//! action tags that buttons carry.
//!
//! State lives in [`Backend`]: `num2` is the operand being entered (and the
//! value a display panel shows), `num1` holds the first operand of a pending
//! binary operation, `operation` is that pending operation (or `Inactive`),
//! and `new` marks whether the next digit starts a fresh operand.
//!
//! Division by zero and signed overflow are reported as an explicit
//! [`ArithmeticError`] instead of crashing; on an error the state is left
//! unchanged so that the caller can surface the error and the user can
//! recover (for example with `Clear`).

use vstd::prelude::*;

verus! {

/// Action identifier carried by a button, consumed only by the backend.
#[derive(Debug, Clone, Copy, PartialEq, Eq, Structural)]
pub enum Tag {
    Error,
    Test,
    Num(u8),
    Op(Operation),
    Eq,
    Clear,
}

/// A pending binary operation, or `Inactive` when none awaits its second
/// operand.
#[derive(Debug, Clone, Copy, PartialEq, Eq, Structural)]
pub enum Operation {
    Inactive,
    Addition,
    Subtraction,
    Multiplication,
    Division,
}

/// The calculator state.
#[derive(Debug, Clone, Copy, PartialEq, Eq, Structural)]
pub struct Backend {
    pub new: bool,
    pub num1: i128,
    pub num2: i128,
    pub operation: Operation,
}

/// A recoverable arithmetic failure, surfaced through the display panel
/// rather than crashing the process.
#[derive(Debug, Clone, Copy, PartialEq, Eq, Structural)]
pub enum ArithmeticError {
    DivideByZero,
    Overflow,
}

/// Digit-entry guard: one tenth of 2^127, rounded down.  A digit is appended
/// to `num2` only while the magnitude of `num2` stays below this bound, which
/// keeps `num2 * 10 + digit` inside the `i128` range.
pub const NUM_GUARD: i128 = 17014118346046923173168730371588410572;

/// A tag is well formed when a `Num` tag carries a decimal digit.
pub open spec fn tag_wf(t: Tag) -> bool {
    t matches Tag::Num(d) ==> d <= 9
}

/// The state after `Clear`: both operands zero, no pending operation, and
/// the next digit starts a fresh operand.
pub open spec fn clear_spec() -> Backend {
    Backend { new: true, num1: 0, num2: 0, operation: Operation::Inactive }
}

/// The state after entering the digit `d`: a fresh operand begins with `d`;
/// otherwise `d` is appended in base 10 while the magnitude of `num2` stays
/// below [`NUM_GUARD`], and past that bound the entry truncates back to `d`.
pub open spec fn num_spec(b: Backend, d: u8) -> Backend {
    if !b.new && -NUM_GUARD < b.num2 && b.num2 < NUM_GUARD {
        Backend { num2: (b.num2 * 10 + d) as i128, ..b }
    } else {
        Backend { new: false, num2: d as i128, ..b }
    }
}

/// Truncating (toward zero) integer division, as the `/` operator computes it
/// on machine integers; `a` and `b` are reduced to non-negative Euclidean
/// division case by case.
pub open spec fn div_trunc(a: int, b: int) -> int {
    if a == 0 {
        0
    } else if a > 0 && b > 0 {
        a / b
    } else if a < 0 && b < 0 {
        (a * -1) / (b * -1)
    } else if a < 0 {
        ((a * -1) / b) * -1
    } else {
        (a / (b * -1)) * -1
    }
}

/// The unbounded result of the pending operation applied to `(a, b)`;
/// `Inactive` leaves the second operand as it is.
pub open spec fn apply_op(op: Operation, a: int, b: int) -> int {
    match op {
        Operation::Inactive => b,
        Operation::Addition => a + b,
        Operation::Subtraction => a - b,
        Operation::Multiplication => a * b,
        Operation::Division => div_trunc(a, b),
    }
}

/// The `Eq` transition: settle the pending operation into `num2`, clear
/// `num1` and the operation.  Division by zero and a result outside the
/// `i128` range are errors, and an error leaves the state unchanged.
pub open spec fn eq_spec(b: Backend) -> Result<Backend, ArithmeticError> {
    if b.operation is Division && b.num2 == 0 {
        Err(ArithmeticError::DivideByZero)
    } else {
        let v = apply_op(b.operation, b.num1 as int, b.num2 as int);
        if v < i128::MIN || v > i128::MAX {
            Err(ArithmeticError::Overflow)
        } else {
            Ok(Backend { num1: 0, num2: v as i128, operation: Operation::Inactive, ..b })
        }
    }
}

/// The `Op(op)` transition: settle the pending operation as `Eq` does, then
/// record `op` with its first operand and await the second.  `Op(Inactive)`
/// does nothing.
pub open spec fn op_spec(b: Backend, op: Operation) -> Result<Backend, ArithmeticError> {
    if op is Inactive {
        Ok(b)
    } else {
        match eq_spec(b) {
            Ok(b1) => Ok(Backend { new: true, num1: b1.num2, operation: op, ..b1 }),
            Err(e) => Err(e),
        }
    }
}

/// The full transition relation of the backend, one step per tag.
pub open spec fn step_spec(b: Backend, t: Tag) -> Result<Backend, ArithmeticError> {
    match t {
        Tag::Error => Ok(b),
        Tag::Test => Ok(b),
        Tag::Num(d) => Ok(num_spec(b, d)),
        Tag::Op(op) => op_spec(b, op),
        Tag::Eq => eq_spec(b),
        Tag::Clear => Ok(clear_spec()),
    }
}

/// The result of feeding a sequence of tags to the backend, stopping at the
/// first error.
pub open spec fn run_tags(b: Backend, ts: Seq<Tag>) -> Result<Backend, ArithmeticError>
    decreases ts.len(),
{
    if ts.len() == 0 {
        Ok(b)
    } else {
        match run_tags(b, ts.drop_last()) {
            Ok(b1) => step_spec(b1, ts.last()),
            Err(e) => Err(e),
        }
    }
}

/// The digit sequence `ds` as a sequence of `Num` tags.
pub open spec fn digit_tags(ds: Seq<u8>) -> Seq<Tag>
    decreases ds.len(),
{
    if ds.len() == 0 {
        Seq::empty()
    } else {
        digit_tags(ds.drop_last()).push(Tag::Num(ds.last()))
    }
}

/// The base-10 integer value of the digit sequence `ds`.
pub open spec fn digits_value(ds: Seq<u8>) -> int
    decreases ds.len(),
{
    if ds.len() == 0 {
        0
    } else {
        digits_value(ds.drop_last()) * 10 + ds.last()
    }
}

proof fn lemma_digits_value_nonneg(ds: Seq<u8>)
    ensures
        digits_value(ds) >= 0,
    decreases ds.len(),
{
    if ds.len() > 0 {
        lemma_digits_value_nonneg(ds.drop_last());
    }
}

/// Law of digit entry: for every digit sequence pressed immediately after
/// `Clear` whose running value stays below the entry guard (no truncation),
/// `num2` ends up holding exactly the base-10 value of the sequence, with no
/// pending operation and `num1` zero.
pub proof fn lemma_digit_entry_after_clear(ds: Seq<u8>)
    requires
        forall|i: int| 0 <= i < ds.len() ==> #[trigger] ds[i] <= 9,
        forall|i: int| 0 <= i < ds.len() ==> digits_value(#[trigger] ds.subrange(0, i)) < NUM_GUARD,
    ensures
        run_tags(clear_spec(), digit_tags(ds)) matches Ok(b) && b.num2 == digits_value(ds)
            && b.num1 == 0 && b.operation is Inactive && b.new == (ds.len() == 0),
    decreases ds.len(),
{
    if ds.len() == 0 {
    } else {
        let prefix = ds.drop_last();
        assert forall|i: int| 0 <= i < prefix.len() implies #[trigger] prefix[i] <= 9 by {
            assert(prefix[i] == ds[i]);
        }
        assert forall|i: int| 0 <= i < prefix.len() implies digits_value(
            #[trigger] prefix.subrange(0, i),
        ) < NUM_GUARD by {
            assert(prefix.subrange(0, i) =~= ds.subrange(0, i));
        }
        lemma_digit_entry_after_clear(prefix);
        lemma_digits_value_nonneg(prefix);
        let b1 = run_tags(clear_spec(), digit_tags(prefix))->Ok_0;
        assert(digit_tags(ds).drop_last() =~= digit_tags(prefix));
        assert(digit_tags(ds).last() == Tag::Num(ds.last()));
        // The value of the proper prefix stays below the guard, so the final
        // digit is appended without truncation and the result fits in i128.
        assert(prefix =~= ds.subrange(0, ds.len() - 1));
        assert(digits_value(prefix) < NUM_GUARD);
        if prefix.len() == 0 {
            assert(b1.new);
        } else {
            assert(!b1.new);
            assert(0 <= b1.num2 < NUM_GUARD);
            assert(b1.num2 * 10 + ds.last() <= (NUM_GUARD - 1) * 10 + 9);
            assert((NUM_GUARD - 1) * 10 + 9 <= i128::MAX);
        }
    }
}

/// Law of `Eq` idempotence: when no operation is pending, `Eq` keeps `num2`
/// and resets `num1` to zero, and a second `Eq` changes nothing further.
pub proof fn lemma_eq_inactive_idempotent(b: Backend)
    requires
        b.operation is Inactive,
    ensures
        eq_spec(b) == Ok::<Backend, ArithmeticError>(
            Backend { num1: 0, operation: Operation::Inactive, ..b },
        ),
        eq_spec(Backend { num1: 0, operation: Operation::Inactive, ..b }) == Ok::<
            Backend,
            ArithmeticError,
        >(Backend { num1: 0, operation: Operation::Inactive, ..b }),
{
}

/// The decimal digits of `n` as ASCII bytes, most significant first.
pub open spec fn dec_digits(n: nat) -> Seq<u8>
    decreases n,
{
    if n < 10 {
        seq![(48 + n) as u8]
    } else {
        dec_digits(n / 10).push((48 + n % 10) as u8)
    }
}

/// The decimal rendering of `n` as ASCII bytes, with a leading minus sign
/// when `n` is negative.
pub open spec fn dec_bytes(n: int) -> Seq<u8> {
    if n < 0 {
        seq![45u8] + dec_digits((n * -1) as nat)
    } else {
        dec_digits(n as nat)
    }
}

/// Append the decimal digits of `m` to `out`, most significant first.
fn push_digits(m: u128, out: &mut Vec<u8>)
    ensures
        final(out)@ == old(out)@ + dec_digits(m as nat),
    decreases m,
{
    if m >= 10 {
        push_digits(m / 10, out);
        out.push((m % 10) as u8 + 48);
        assert(final(out)@ =~= old(out)@ + dec_digits(m as nat));
    } else {
        out.push(m as u8 + 48);
        assert(final(out)@ =~= old(out)@ + dec_digits(m as nat));
    }
}

/// Render `n` in decimal as ASCII bytes, as a display panel shows it.
pub fn to_decimal(n: i128) -> (r: Vec<u8>)
    ensures
        r@ == dec_bytes(n as int),
{
    let mut out: Vec<u8> = Vec::new();
    if n >= 0 {
        push_digits(n as u128, &mut out);
        assert(out@ =~= dec_bytes(n as int));
    } else {
        out.push(45);
        let m: u128 = if n == i128::MIN {
            170141183460469231731687303715884105728u128
        } else {
            (-n) as u128
        };
        assert(m as int == (n as int) * -1);
        push_digits(m, &mut out);
        assert(out@ =~= dec_bytes(n as int));
    }
    out
}

impl ArithmeticError {
    /// The error's display label as ASCII bytes.
    pub fn label(&self) -> (r: Vec<u8>)
        ensures
            r@ == error_bytes(*self),
    {
        let mut out: Vec<u8> = Vec::new();
        match self {
            ArithmeticError::DivideByZero => {
                out.push(100);  // d
                out.push(105);  // i
                out.push(118);  // v
                out.push(105);  // i
                out.push(100);  // d
                out.push(101);  // e
                out.push(32);  // space
                out.push(98);  // b
                out.push(121);  // y
                out.push(32);  // space
                out.push(122);  // z
                out.push(101);  // e
                out.push(114);  // r
                out.push(111);  // o
                assert(out@ =~= error_bytes(*self));
            },
            ArithmeticError::Overflow => {
                out.push(111);  // o
                out.push(118);  // v
                out.push(101);  // e
                out.push(114);  // r
                out.push(102);  // f
                out.push(108);  // l
                out.push(111);  // o
                out.push(119);  // w
                assert(out@ =~= error_bytes(*self));
            },
        }
        out
    }
}

/// The display label of each arithmetic error, as ASCII bytes:
/// "divide by zero" and "overflow".
pub open spec fn error_bytes(e: ArithmeticError) -> Seq<u8> {
    match e {
        ArithmeticError::DivideByZero => seq![
            100u8,
            105u8,
            118u8,
            105u8,
            100u8,
            101u8,
            32u8,
            98u8,
            121u8,
            32u8,
            122u8,
            101u8,
            114u8,
            111u8,
        ],
        ArithmeticError::Overflow => seq![111u8, 118u8, 101u8, 114u8, 102u8, 108u8, 111u8, 119u8],
    }
}

/// Diagnostic hook: no state change.
pub fn test() {
}

/// Reset the backend to its start state.
pub fn clear(backend: &mut Backend)
    ensures
        *final(backend) == clear_spec(),
{
    backend.new = true;
    backend.num1 = 0;
    backend.num2 = 0;
    backend.operation = Operation::Inactive;
}

/// Enter one decimal digit into the current operand.
pub fn num(backend: &mut Backend, num: &u8)
    requires
        *num <= 9,
    ensures
        *final(backend) == num_spec(*old(backend), *num),
{
    if !backend.new && -NUM_GUARD < backend.num2 && backend.num2 < NUM_GUARD {
        backend.num2 = backend.num2 * 10 + (*num as i128);
    } else {
        backend.num2 = *num as i128;
        backend.new = false;
    }
}

/// Settle the pending operation into `num2`; on division by zero or a result
/// outside the `i128` range, report the error and leave the state unchanged.
pub fn eq(backend: &mut Backend) -> (r: Result<(), ArithmeticError>)
    ensures
        (match eq_spec(*old(backend)) {
            Ok(b) => r is Ok && *final(backend) == b,
            Err(e) => r == Err::<(), ArithmeticError>(e) && *final(backend) == *old(backend),
        }),
{
    let settled: Option<i128> = match backend.operation {
        Operation::Inactive => Some(backend.num2),
        Operation::Addition => backend.num1.checked_add(backend.num2),
        Operation::Subtraction => backend.num1.checked_sub(backend.num2),
        Operation::Multiplication => backend.num1.checked_mul(backend.num2),
        Operation::Division => {
            if backend.num2 == 0 {
                return Err(ArithmeticError::DivideByZero);
            }
            backend.num1.checked_div(backend.num2)
        },
    };
    match settled {
        Some(v) => {
            backend.num2 = v;
            backend.operation = Operation::Inactive;
            backend.num1 = 0;
            Ok(())
        },
        None => Err(ArithmeticError::Overflow),
    }
}

/// Press an operator key: settle the pending operation, then make `op` the
/// pending operation with the settled value as its first operand.  An error
/// while settling is reported and leaves the state unchanged.
pub fn operation(backend: &mut Backend, op: &Operation) -> (r: Result<(), ArithmeticError>)
    ensures
        (match op_spec(*old(backend), *op) {
            Ok(b) => r is Ok && *final(backend) == b,
            Err(e) => r == Err::<(), ArithmeticError>(e) && *final(backend) == *old(backend),
        }),
{
    match op {
        Operation::Inactive => Ok(()),
        _ => match eq(backend) {
            Ok(()) => {
                backend.operation = *op;
                backend.num1 = backend.num2;
                backend.new = true;
                Ok(())
            },
            Err(e) => Err(e),
        },
    }
}

impl Tag {
    /// Dispatch one tag to the backend; `Test` and `Error` are inert.
    pub fn click_action(&self, backend: &mut Backend) -> (r: Result<(), ArithmeticError>)
        requires
            tag_wf(*self),
        ensures
            (match step_spec(*old(backend), *self) {
                Ok(b) => r is Ok && *final(backend) == b,
                Err(e) => r == Err::<(), ArithmeticError>(e) && *final(backend) == *old(backend),
            }),
    {
        match self {
            Tag::Test => {
                test();
                Ok(())
            },
            Tag::Clear => {
                clear(backend);
                Ok(())
            },
            Tag::Op(inner) => operation(backend, inner),
            Tag::Eq => eq(backend),
            Tag::Num(inner) => {
                num(backend, inner);
                Ok(())
            },
            Tag::Error => Ok(()),
        }
    }
}

} // verus!

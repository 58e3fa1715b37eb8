//! Comparing typed values: unsigned and signed integers by their number,
//! addresses byte by byte, booleans with `false` before `true`.
use vstd::prelude::*;
use crate::types::{TypedValue, ValueModel};

verus! {

/// The number that big-endian bytes stand for.
pub open spec fn unsigned_value(bytes: Seq<u8>) -> nat
    decreases bytes.len(),
{
    if bytes.len() == 0 {
        0
    } else {
        unsigned_value(bytes.drop_last()) * 256 + bytes.last() as nat
    }
}

/// Two to the power of eight times `n`: one more than `n` bytes can hold.
pub open spec fn byte_limit(n: nat) -> nat
    decreases n,
{
    if n == 0 {
        1
    } else {
        byte_limit((n - 1) as nat) * 256
    }
}

/// The number that big-endian bytes stand for in two's complement.
pub open spec fn signed_value(bytes: Seq<u8>) -> int {
    if bytes.len() > 0 && bytes[0] >= 128 {
        unsigned_value(bytes) - byte_limit(bytes.len())
    } else {
        unsigned_value(bytes) as int
    }
}

/// Minus one, zero or one, as the first number is below, equal to or above
/// the second.
pub open spec fn sign_of_difference(a: int, b: int) -> i32 {
    if a < b {
        -1i32
    } else if a == b {
        0i32
    } else {
        1i32
    }
}

/// How two values compare: unsigned integers, signed integers and addresses
/// by the number that their bytes stand for, booleans with `false` before
/// `true`. `None` for values of two kinds or of any other kind, and for
/// words of different lengths.
pub open spec fn compared(a: ValueModel, b: ValueModel) -> Option<i32> {
    match (a, b) {
        (ValueModel::Uint(x, _), ValueModel::Uint(y, _)) => if x.len() == y.len() {
            Some(sign_of_difference(unsigned_value(x) as int, unsigned_value(y) as int))
        } else {
            None
        },
        (ValueModel::Int(x, _), ValueModel::Int(y, _)) => if x.len() == y.len() {
            Some(sign_of_difference(signed_value(x), signed_value(y)))
        } else {
            None
        },
        (ValueModel::Address(x), ValueModel::Address(y)) => if x.len() == y.len() {
            Some(sign_of_difference(unsigned_value(x) as int, unsigned_value(y) as int))
        } else {
            None
        },
        (ValueModel::Bool(x), ValueModel::Bool(y)) => Some(
            sign_of_difference(
                if x {
                    1
                } else {
                    0
                },
                if y {
                    1
                } else {
                    0
                },
            ),
        ),
        _ => None,
    }
}

proof fn lemma_value_below_limit(bytes: Seq<u8>)
    ensures
        unsigned_value(bytes) < byte_limit(bytes.len()),
    decreases bytes.len(),
{
    if bytes.len() > 0 {
        lemma_value_below_limit(bytes.drop_last());
        let shorter = unsigned_value(bytes.drop_last());
        let limit = byte_limit((bytes.len() - 1) as nat);
        let last = bytes.last() as nat;
        assert(shorter * 256 + last < limit * 256) by (nonlinear_arith)
            requires
                shorter < limit,
                last <= 255,
        ;
    }
}

/// Equal big-endian bytes up to a position where the first has the smaller
/// byte stand for a smaller number.
proof fn lemma_first_difference_decides(a: Seq<u8>, b: Seq<u8>, i: int)
    requires
        a.len() == b.len(),
        0 <= i < a.len(),
        forall|j: int| 0 <= j < i ==> a[j] == b[j],
        a[i] < b[i],
    ensures
        unsigned_value(a) < unsigned_value(b),
    decreases a.len(),
{
    let shorter_a = a.drop_last();
    let shorter_b = b.drop_last();
    if i == a.len() - 1 {
        assert(shorter_a =~= shorter_b);
    } else {
        lemma_first_difference_decides(shorter_a, shorter_b, i);
        let x = unsigned_value(shorter_a);
        let y = unsigned_value(shorter_b);
        let last_a = a.last() as nat;
        let last_b = b.last() as nat;
        assert(x * 256 + last_a < y * 256 + last_b) by (nonlinear_arith)
            requires
                x < y,
                last_a <= 255,
        ;
    }
}

/// The first byte of big-endian bytes tells which half of the range the
/// number is in.
proof fn lemma_first_byte_bounds(bytes: Seq<u8>)
    requires
        bytes.len() > 0,
    ensures
        bytes[0] < 128 ==> unsigned_value(bytes) < 128 * byte_limit((bytes.len() - 1) as nat),
        bytes[0] >= 128 ==> unsigned_value(bytes) >= 128 * byte_limit((bytes.len() - 1) as nat),
        byte_limit(bytes.len()) == 256 * byte_limit((bytes.len() - 1) as nat),
    decreases bytes.len(),
{
    if bytes.len() == 1 {
        assert(bytes.drop_last().len() == 0);
        assert(unsigned_value(bytes.drop_last()) == 0);
        assert(byte_limit(0) == 1);
        assert(bytes.last() == bytes[0]);
    } else {
        let shorter = bytes.drop_last();
        lemma_first_byte_bounds(shorter);
        assert(shorter[0] == bytes[0]);
        let x = unsigned_value(shorter);
        let below = byte_limit((shorter.len() - 1) as nat);
        let limit = byte_limit(shorter.len());
        let last = bytes.last() as nat;
        assert(limit == below * 256);
        if bytes[0] < 128 {
            assert(x * 256 + last < 128 * (below * 256)) by (nonlinear_arith)
                requires
                    x < 128 * below,
                    last <= 255,
            ;
        } else {
            assert(x * 256 + last >= 128 * (below * 256)) by (nonlinear_arith)
                requires
                    x >= 128 * below,
            ;
        }
    }
}

/// Compares big-endian bytes of one length as unsigned numbers.
fn compare_unsigned(a: &Vec<u8>, b: &Vec<u8>) -> (sign: i32)
    requires
        a@.len() == b@.len(),
    ensures
        sign == sign_of_difference(unsigned_value(a@) as int, unsigned_value(b@) as int),
{
    let mut i: usize = 0;
    while i < a.len()
        invariant
            i <= a@.len(),
            a@.len() == b@.len(),
            forall|j: int| 0 <= j < i ==> a@[j] == b@[j],
        decreases a@.len() - i,
    {
        if a[i] < b[i] {
            proof {
                lemma_first_difference_decides(a@, b@, i as int);
            }
            return -1;
        }
        if a[i] > b[i] {
            proof {
                lemma_first_difference_decides(b@, a@, i as int);
            }
            return 1;
        }
        i += 1;
    }
    assert(a@ =~= b@);
    0
}

/// Compares big-endian bytes of one length as numbers in two's complement.
fn compare_signed(a: &Vec<u8>, b: &Vec<u8>) -> (sign: i32)
    requires
        a@.len() == b@.len(),
    ensures
        sign == sign_of_difference(signed_value(a@), signed_value(b@)),
{
    if a.len() == 0 {
        assert(a@ =~= b@);
        return 0;
    }
    let a_negative = a[0] >= 128;
    let b_negative = b[0] >= 128;
    proof {
        lemma_first_byte_bounds(a@);
        lemma_first_byte_bounds(b@);
        lemma_value_below_limit(a@);
        lemma_value_below_limit(b@);
    }
    if a_negative && !b_negative {
        -1
    } else if !a_negative && b_negative {
        1
    } else {
        compare_unsigned(a, b)
    }
}

/// Compares two values of one kind: minus one, zero or one, as the first is
/// below, equal to or above the second. `None` where they cannot be
/// compared.
pub fn compare_values(a: &TypedValue, b: &TypedValue) -> (sign: Option<i32>)
    ensures
        sign == compared(a@, b@),
{
    match (a, b) {
        (TypedValue::Uint(x, _), TypedValue::Uint(y, _)) => {
            if x.len() == y.len() {
                Some(compare_unsigned(x, y))
            } else {
                None
            }
        },
        (TypedValue::Int(x, _), TypedValue::Int(y, _)) => {
            if x.len() == y.len() {
                Some(compare_signed(x, y))
            } else {
                None
            }
        },
        (TypedValue::Address(x), TypedValue::Address(y)) => {
            if x.len() == y.len() {
                Some(compare_unsigned(x, y))
            } else {
                None
            }
        },
        (TypedValue::Bool(x), TypedValue::Bool(y)) => {
            if *x == *y {
                Some(0)
            } else if *y {
                Some(-1)
            } else {
                Some(1)
            }
        },
        _ => None,
    }
}

} // verus!

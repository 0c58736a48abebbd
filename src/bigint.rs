use vstd::prelude::*;

verus! {

/// The base of one digit of an [`Int`]'s magnitude.
pub const DIGIT_BASE: u64 = 4294967296;

/// The value of a little-endian sequence of base-2^32 digits.
pub open spec fn digits_value(d: Seq<u32>) -> nat
    decreases d.len(),
{
    if d.len() == 0 {
        0
    } else {
        d[0] as nat + 4294967296 * digits_value(d.drop_first())
    }
}

/// An unbounded integer: a sign and a little-endian magnitude of base-2^32 digits.
/// Trailing zero digits and a negative zero are allowed and change nothing.
#[derive(Debug)]
pub struct Int {
    pub negative: bool,
    pub digits: Vec<u32>,
}

impl Int {
    /// The mathematical value.
    pub open spec fn value(&self) -> int {
        if self.negative {
            -(digits_value(self.digits@) as int)
        } else {
            digits_value(self.digits@) as int
        }
    }

    /// The integer equal to `n`.
    pub fn from_u64(n: u64) -> (r: Int)
        ensures
            r.value() == n as int,
    {
        let lo: u32 = (n % DIGIT_BASE) as u32;
        let hi: u32 = (n / DIGIT_BASE) as u32;
        let mut digits: Vec<u32> = Vec::new();
        if n != 0 {
            digits.push(lo);
            if hi != 0 {
                digits.push(hi);
            }
        }
        proof {
            let d = digits@;
            if n != 0 {
                let t = d.drop_first();
                if hi != 0 {
                    assert(t.drop_first().len() == 0);
                    assert(t[0] == hi);
                    assert(digits_value(t) == hi as nat + 4294967296 * digits_value(t.drop_first()));
                    assert(digits_value(t) == hi as nat);
                } else {
                    assert(t.len() == 0);
                    assert(digits_value(t) == 0);
                }
                assert(d[0] == lo);
                assert(digits_value(d) == lo as nat + 4294967296 * digits_value(t));
                assert(n as nat == lo as nat + 4294967296 * (hi as nat));
            } else {
                assert(d.len() == 0);
            }
        }
        Int { negative: false, digits }
    }

    /// The integer equal to `n`.
    pub fn from_i64(n: i64) -> (r: Int)
        ensures
            r.value() == n as int,
    {
        if n < 0 {
            let m: u64 = ((-(n + 1)) as u64) + 1;
            let a = Int::from_u64(m);
            Int { negative: true, digits: a.digits }
        } else {
            Int::from_u64(n as u64)
        }
    }

    /// Narrows to a byte: `Some` exactly when the value lies in 0 to 255.
    pub fn to_u8(&self) -> (r: Option<u8>)
        ensures
            r == (if 0 <= self.value() <= 255 {
                Some(self.value() as u8)
            } else {
                None::<u8>
            }),
    {
        let d = &self.digits;
        let len = d.len();
        if len == 0 {
            return Some(0);
        }
        let mut i: usize = 1;
        while i < len
            invariant
                1 <= i <= len,
                len == d@.len(),
                d@ == self.digits@,
                forall|j: int| 1 <= j < i ==> d@[j] == 0,
            decreases len - i,
        {
            if d[i] != 0 {
                proof {
                    lemma_nonzero_digit(d@.drop_first(), i - 1);
                    let t = digits_value(d@.drop_first());
                    let v = digits_value(d@);
                    let a = d@[0] as nat;
                    assert(v == a + 4294967296 * t);
                    assert(v >= 256) by (nonlinear_arith)
                        requires
                            t >= 1,
                            v == a + 4294967296 * t,
                    ;
                }
                return None;
            }
            i = i + 1;
        }
        proof {
            lemma_zero_digits(d@.drop_first());
            assert(digits_value(d@) == d@[0] as nat + 4294967296 * digits_value(d@.drop_first()));
        }
        if d[0] == 0 {
            Some(0)
        } else if self.negative || d[0] > 255 {
            None
        } else {
            Some(d[0] as u8)
        }
    }
}

/// A sequence of zero digits has value zero.
proof fn lemma_zero_digits(d: Seq<u32>)
    requires
        forall|j: int| 0 <= j < d.len() ==> d[j] == 0,
    ensures
        digits_value(d) == 0,
    decreases d.len(),
{
    if d.len() > 0 {
        lemma_zero_digits(d.drop_first());
    }
}

/// A sequence with a nonzero digit has a positive value.
proof fn lemma_nonzero_digit(d: Seq<u32>, k: int)
    requires
        0 <= k < d.len(),
        d[k] != 0,
    ensures
        digits_value(d) >= 1,
    decreases d.len(),
{
    if k > 0 {
        lemma_nonzero_digit(d.drop_first(), k - 1);
    }
}

} // verus!

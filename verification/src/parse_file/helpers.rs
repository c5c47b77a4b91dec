//! Decompression of shapes.
//!
//! A shape is stored as the differences of its samples, and a run of equal
//! differences is stored as the difference twice, followed by the number of
//! further repetitions.

use vstd::prelude::*;
use crate::error::ShapeDecompressionError;
use crate::fixed::{has_no_fraction, is_whole, saturate, saturating_sum, whole_of, whole_part, Fixed};

verus! {

/// The stored sample at `i` is a run length, not a difference: it follows two
/// equal stored samples, and neither of those two is itself a run length.
pub open spec fn is_run_length(stored: Seq<Fixed>, i: int) -> bool
    decreases i,
{
    &&& 2 <= i < stored.len()
    &&& stored[i - 2] == stored[i - 1]
    &&& !is_run_length(stored, i - 1)
    &&& !is_run_length(stored, i - 2)
}

/// The number of repetitions that a run length asks for; none where it is
/// below zero.
pub open spec fn repetitions(value: Fixed) -> nat {
    if value > 0 {
        whole_part(value) as nat
    } else {
        0
    }
}

/// The differences that the stored sample at `i` stands for.
pub open spec fn decoded_at(stored: Seq<Fixed>, i: int) -> Seq<Fixed> {
    if is_run_length(stored, i) {
        Seq::new(repetitions(stored[i]), |k: int| stored[i - 1])
    } else {
        seq![stored[i]]
    }
}

/// The differences that the first `n` stored samples stand for.
pub open spec fn decoded_prefix(stored: Seq<Fixed>, n: int) -> Seq<Fixed>
    decreases n,
{
    if n <= 0 {
        Seq::empty()
    } else {
        decoded_prefix(stored, n - 1) + decoded_at(stored, n - 1)
    }
}

/// The differences that the stored samples stand for.
pub open spec fn decoded(stored: Seq<Fixed>) -> Seq<Fixed> {
    decoded_prefix(stored, stored.len() as int)
}

/// The first index below `n` at which a run length has a fractional part.
pub open spec fn first_fractional_run_length(stored: Seq<Fixed>, n: int) -> Option<int>
    decreases n,
{
    if n <= 0 {
        None
    } else {
        match first_fractional_run_length(stored, n - 1) {
            Some(i) => Some(i),
            None => if is_run_length(stored, n - 1) && !is_whole(stored[n - 1]) {
                Some(n - 1)
            } else {
                None
            },
        }
    }
}

/// The last element, or zero for the empty sequence.
pub open spec fn last_or_zero(s: Seq<Fixed>) -> Fixed {
    if s.len() == 0 {
        0
    } else {
        s.last()
    }
}

/// The running sums of `differences`. A sum beyond the range of [`Fixed`]
/// stays at the bound that it crossed.
pub open spec fn integrate(differences: Seq<Fixed>) -> Seq<Fixed>
    decreases differences.len(),
{
    if differences.len() == 0 {
        Seq::empty()
    } else {
        let before = integrate(differences.drop_last());
        before.push(saturate(last_or_zero(before) + differences.last()))
    }
}

/// What [`decompress_shape`] makes of `stored` when `expected` samples are
/// announced.
pub open spec fn decompressed(stored: Seq<Fixed>, expected: nat) -> Result<
    Seq<Fixed>,
    ShapeDecompressionError,
> {
    if stored.len() == expected {
        Ok(stored)
    } else {
        match first_fractional_run_length(stored, stored.len() as int) {
            Some(i) => Err(
                ShapeDecompressionError::RleCountIsNotInteger {
                    index: i as usize,
                    value: stored[i],
                },
            ),
            None => if decoded(stored).len() == expected {
                Ok(integrate(decoded(stored)))
            } else {
                Err(
                    ShapeDecompressionError::WrongDecompressedCount {
                        count: if decoded(stored).len() > usize::MAX {
                            usize::MAX
                        } else {
                            decoded(stored).len() as usize
                        },
                        expected: expected as usize,
                    },
                )
            },
        }
    }
}

/// Appending one difference appends one running sum.
pub proof fn lemma_integrate_push(differences: Seq<Fixed>, next: Fixed)
    ensures
        integrate(differences.push(next)) == integrate(differences).push(
            saturate(last_or_zero(integrate(differences)) + next),
        ),
        integrate(differences).len() == differences.len(),
    decreases differences.len(),
{
    assert(differences.push(next).drop_last() =~= differences);
    if differences.len() > 0 {
        lemma_integrate_push(differences.drop_last(), differences.last());
        assert(differences.drop_last().push(differences.last()) =~= differences);
    }
}

/// A fractional run length found below `n` is one, lies below `n`, and is the
/// first; where none is found, every run length below `n` is whole.
pub proof fn lemma_first_fractional_run_length(stored: Seq<Fixed>, n: int)
    requires
        0 <= n <= stored.len(),
    ensures
        match first_fractional_run_length(stored, n) {
            Some(i) => {
                &&& 0 <= i < n
                &&& is_run_length(stored, i)
                &&& !is_whole(stored[i])
                &&& forall|j: int|
                    0 <= j < i && is_run_length(stored, j) ==> is_whole(#[trigger] stored[j])
            },
            None => forall|j: int|
                0 <= j < n && is_run_length(stored, j) ==> is_whole(#[trigger] stored[j]),
        },
    decreases n,
{
    if n > 0 {
        lemma_first_fractional_run_length(stored, n - 1);
    }
}

/// Undoes the compression of a shape.
///
/// Where `samples` already holds `num_samples` values it was never compressed
/// and comes back as it is. Otherwise the samples are read as differences with
/// run lengths, the differences must number `num_samples`, and the shape is
/// their running sums.
pub fn decompress_shape(samples: Vec<Fixed>, num_samples: u32) -> (shape: Result<
    Vec<Fixed>,
    ShapeDecompressionError,
>)
    ensures
        samples@.len() == num_samples ==> shape == Ok::<Vec<Fixed>, ShapeDecompressionError>(
            samples,
        ),
        match shape {
            Ok(values) => decompressed(samples@, num_samples as nat) == Ok::<
                Seq<Fixed>,
                ShapeDecompressionError,
            >(values@),
            Err(e) => decompressed(samples@, num_samples as nat) == Err::<
                Seq<Fixed>,
                ShapeDecompressionError,
            >(e),
        },
{
    if samples.len() == num_samples as usize {
        return Ok(samples);
    }
    // The length of what the samples decode to, and the first bad run length.

    let mut total: u128 = 0;
    let mut lockout: u8 = 0;
    let mut i: usize = 0;
    while i < samples.len()
        invariant
            i <= samples.len(),
            samples@.len() != num_samples,
            lockout <= 2,
            (lockout == 2) == is_run_length(samples@, i - 1),
            (lockout == 1) == is_run_length(samples@, i - 2),
            total == decoded_prefix(samples@, i as int).len(),
            total <= i * 0x4_0000_0000,
            first_fractional_run_length(samples@, i as int) is None,
        decreases samples.len() - i,
    {
        if i >= 2 && samples[i - 2] == samples[i - 1] && lockout == 0 {
            let value: Fixed = samples[i];
            assert(is_run_length(samples@, i as int));
            if !has_no_fraction(value) {
                proof {
                    assert(first_fractional_run_length(samples@, i as int + 1) == Some(i as int));
                    lemma_first_fractional_extends(samples@, i as int + 1, samples@.len() as int);
                }
                return Err(ShapeDecompressionError::RleCountIsNotInteger { index: i, value });
            }
            let run: u64 = if value > 0 {
                whole_of(value)
            } else {
                0
            };
            assert(run == repetitions(value));
            assert(run < 0x4_0000_0000);
            total = total + run as u128;
            lockout = 2;
        } else {
            assert(!is_run_length(samples@, i as int));
            if lockout > 0 {
                lockout = lockout - 1;
            }
            total = total + 1;
        }
        i = i + 1;
    }
    if total != num_samples as u128 {
        let count: usize = if total > usize::MAX as u128 {
            usize::MAX
        } else {
            total as usize
        };
        return Err(
            ShapeDecompressionError::WrongDecompressedCount {
                count,
                expected: num_samples as usize,
            },
        );
    }
    // The running sums of what the samples decode to.

    let mut shape: Vec<Fixed> = Vec::new();
    let mut sum: Fixed = 0;
    let mut lockout: u8 = 0;
    let mut i: usize = 0;
    while i < samples.len()
        invariant
            i <= samples.len(),
            lockout <= 2,
            (lockout == 2) == is_run_length(samples@, i - 1),
            (lockout == 1) == is_run_length(samples@, i - 2),
            first_fractional_run_length(samples@, samples@.len() as int) is None,
            shape@ == integrate(decoded_prefix(samples@, i as int)),
            sum == last_or_zero(shape@),
        decreases samples.len() - i,
    {
        let ghost before = decoded_prefix(samples@, i as int);
        if i >= 2 && samples[i - 2] == samples[i - 1] && lockout == 0 {
            let value: Fixed = samples[i];
            let repeated: Fixed = samples[i - 1];
            proof {
                lemma_first_fractional_run_length(samples@, samples@.len() as int);
                assert(is_run_length(samples@, i as int));
                assert(is_whole(samples@[i as int]));
            }
            let run: u64 = if value > 0 {
                whole_of(value)
            } else {
                0
            };
            let mut k: u64 = 0;
            while k < run
                invariant
                    k <= run,
                    shape@ == integrate(before + Seq::new(k as nat, |j: int| repeated)),
                    sum == last_or_zero(shape@),
                decreases run - k,
            {
                proof {
                    let sofar = before + Seq::new(k as nat, |j: int| repeated);
                    lemma_integrate_push(sofar, repeated);
                    assert(sofar.push(repeated) =~= before + Seq::new(
                        (k + 1) as nat,
                        |j: int| repeated,
                    ));
                }
                sum = saturating_sum(sum, repeated);
                shape.push(sum);
                k = k + 1;
            }
            assert(Seq::new(run as nat, |j: int| repeated) =~= decoded_at(samples@, i as int));
            lockout = 2;
        } else {
            let value: Fixed = samples[i];
            proof {
                assert(!is_run_length(samples@, i as int));
                lemma_integrate_push(before, value);
                assert(before.push(value) =~= before + decoded_at(samples@, i as int));
            }
            if lockout > 0 {
                lockout = lockout - 1;
            }
            sum = saturating_sum(sum, value);
            shape.push(sum);
        }
        i = i + 1;
    }
    proof {
        lemma_integrate_push(decoded(samples@), 0);
    }
    Ok(shape)
}

/// A fractional run length found below `n` is still the first one found below
/// any later bound.
proof fn lemma_first_fractional_extends(stored: Seq<Fixed>, n: int, m: int)
    requires
        0 <= n <= m <= stored.len(),
        first_fractional_run_length(stored, n) is Some,
    ensures
        first_fractional_run_length(stored, m) == first_fractional_run_length(stored, n),
    decreases m - n,
{
    if n < m {
        lemma_first_fractional_extends(stored, n, m - 1);
    }
}

} // verus!

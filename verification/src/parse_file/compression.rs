//! The compression that [`decompress_shape`](super::helpers::decompress_shape)
//! undoes, and the proof that it does.

use vstd::prelude::*;
use vstd::arithmetic::div_mod::lemma_fundamental_div_mod_converse;
use crate::error::ShapeDecompressionError;
use crate::fixed::{is_whole, whole_part, Fixed, UNIT};
use crate::parse_file::helpers::{
    decoded, decoded_at, decoded_prefix, decompressed, first_fractional_run_length, integrate,
    is_run_length, repetitions,
};

verus! {

/// The length of the longest run of equal values that starts at `i`.
pub open spec fn run_len(values: Seq<Fixed>, i: int) -> nat
    decreases values.len() - i,
{
    if i < 0 || i >= values.len() {
        0
    } else if i + 1 < values.len() && values[i + 1] == values[i] {
        1 + run_len(values, i + 1)
    } else {
        1
    }
}

/// The run length that is stored for a run of `n` values: the number of
/// values behind the first two.
pub open spec fn run_length(n: nat) -> Fixed {
    ((n - 2) * UNIT) as Fixed
}

/// What is stored for the value at `i`: nothing where it continues a run,
/// the value where it stands alone, and the value twice and a run length
/// where it starts a run of two or more.
pub open spec fn stored_at(differences: Seq<Fixed>, i: int) -> Seq<Fixed> {
    if i > 0 && differences[i - 1] == differences[i] {
        Seq::empty()
    } else if run_len(differences, i) <= 1 {
        seq![differences[i]]
    } else {
        seq![differences[i], differences[i], run_length(run_len(differences, i))]
    }
}

/// The stored form of the differences from `i` on.
pub open spec fn compressed_from(differences: Seq<Fixed>, i: int) -> Seq<Fixed>
    decreases differences.len() - i,
{
    if i < 0 || i >= differences.len() {
        Seq::empty()
    } else {
        stored_at(differences, i) + compressed_from(differences, i + 1)
    }
}

/// The stored form of the differences of a shape.
pub open spec fn compressed(differences: Seq<Fixed>) -> Seq<Fixed> {
    compressed_from(differences, 0)
}

/// A run holds equal values, ends within the sequence, and is followed by
/// another value.
pub proof fn lemma_run(values: Seq<Fixed>, i: int)
    requires
        0 <= i < values.len(),
    ensures
        1 <= run_len(values, i),
        i + run_len(values, i) <= values.len(),
        forall|j: int| i <= j < i + run_len(values, i) ==> values[j] == values[i],
        i + run_len(values, i) < values.len() ==> values[i + run_len(values, i)] != values[i],
    decreases values.len() - i,
{
    if i + 1 < values.len() && values[i + 1] == values[i] {
        lemma_run(values, i + 1);
    }
}

/// The run length that is stored for a run is whole and asks for the values
/// behind the first two.
proof fn lemma_run_length(n: nat)
    requires
        2 <= n <= u32::MAX,
    ensures
        is_whole(run_length(n)),
        repetitions(run_length(n)) == n - 2,
{
    let k = (n - 2) as int;
    let unit = UNIT as int;
    assert(0 <= k * unit <= 0xffff_ffff * 1_000_000_000) by (nonlinear_arith)
        requires
            0 <= k <= 0xffff_ffff,
            unit == 1_000_000_000,
    ;
    assert(run_length(n) == k * unit);
    lemma_fundamental_div_mod_converse(k * unit, unit, k, 0);
    if k > 0 {
        assert(k * unit > 0) by (nonlinear_arith)
            requires
                k > 0,
                unit == 1_000_000_000,
        ;
    }
}

/// Nothing is stored for the values that continue a run.
proof fn lemma_run_is_skipped(differences: Seq<Fixed>, i: int, j: int)
    requires
        0 <= i < j <= differences.len(),
        forall|k: int| i <= k < j ==> #[trigger] differences[k] == differences[i],
    ensures
        compressed_from(differences, i + 1) == compressed_from(differences, j),
    decreases j - i,
{
    if i + 1 < j {
        assert(stored_at(differences, i + 1) =~= Seq::<Fixed>::empty());
        assert(compressed_from(differences, i + 1) =~= compressed_from(differences, i + 2));
        assert forall|k: int| i + 1 <= k < j implies #[trigger] differences[k] == differences[i
            + 1] by {}
        lemma_run_is_skipped(differences, i + 1, j);
    }
}

/// Reading the stored form group by group gives the differences back.
proof fn lemma_decode_groups(differences: Seq<Fixed>, i: int, stored: Seq<Fixed>, p: int)
    requires
        differences.len() <= u32::MAX,
        0 <= i <= differences.len(),
        0 <= p <= stored.len(),
        i > 0 && i < differences.len() ==> differences[i - 1] != differences[i],
        stored.subrange(p, stored.len() as int) == compressed_from(differences, i),
        decoded_prefix(stored, p) == differences.take(i),
        first_fractional_run_length(stored, p) is None,
        !is_run_length(stored, p),
        p == 0 || is_run_length(stored, p - 1) || (i < differences.len() ==> stored[p - 1]
            != differences[i]),
    ensures
        decoded(stored) == differences,
        first_fractional_run_length(stored, stored.len() as int) is None,
    decreases differences.len() - i,
{
    let rest = stored.subrange(p, stored.len() as int);
    if i == differences.len() {
        assert(rest.len() == 0);
        assert(p == stored.len());
        assert(differences.take(i) =~= differences);
    } else {
        lemma_run(differences, i);
        let n = run_len(differences, i);
        let v = differences[i];
        lemma_run_is_skipped(differences, i, i + n);
        if n <= 1 {
            let tail = compressed_from(differences, i + 1);
            assert(rest == seq![v] + tail);
            assert(rest.len() >= 1);
            assert(stored[p] == rest[0]);
            assert(stored.subrange(p + 1, stored.len() as int) =~= tail) by {
                assert forall|k: int| 0 <= k < stored.len() - (p + 1) implies stored[p + 1 + k]
                    == tail[k] by {
                    assert(stored[p + 1 + k] == rest[k + 1]);
                }
            }
            assert(decoded_at(stored, p) == seq![v]);
            assert(decoded_prefix(stored, p + 1) =~= differences.take(i + 1));
            assert(!is_run_length(stored, p + 1));
            lemma_decode_groups(differences, i + 1, stored, p + 1);
        } else {
            let tail = compressed_from(differences, i + n);
            let count = run_length(n);
            assert(rest == seq![v, v, count] + tail);
            assert(rest.len() >= 3);
            assert(stored[p] == rest[0]);
            assert(stored[p + 1] == rest[1]);
            assert(stored[p + 2] == rest[2]);
            assert(stored.subrange(p + 3, stored.len() as int) =~= tail) by {
                assert forall|k: int| 0 <= k < stored.len() - (p + 3) implies stored[p + 3 + k]
                    == tail[k] by {
                    assert(stored[p + 3 + k] == rest[k + 3]);
                }
            }
            lemma_run_length(n);
            assert(!is_run_length(stored, p + 1));
            assert(is_run_length(stored, p + 2));
            assert(!is_run_length(stored, p + 3));
            assert(decoded_at(stored, p) == seq![v]);
            assert(decoded_at(stored, p + 1) == seq![v]);
            assert(decoded_at(stored, p + 2) == Seq::new((n - 2) as nat, |k: int| v));
            assert(decoded_prefix(stored, p + 1) == differences.take(i) + seq![v]);
            assert(decoded_prefix(stored, p + 2) == differences.take(i) + seq![v] + seq![v]);
            assert(decoded_prefix(stored, p + 3) =~= differences.take(i + n));
            assert(first_fractional_run_length(stored, p + 1) is None);
            assert(first_fractional_run_length(stored, p + 2) is None);
            assert(first_fractional_run_length(stored, p + 3) is None);
            lemma_decode_groups(differences, i + n, stored, p + 3);
        }
    }
}

/// Compression and decompression undo each other: where differences are
/// stored in compressed form, and the stored form differs in length from the
/// differences, decompression gives the running sums of the differences.
///
/// A stored form of the same length is taken for a shape that was never
/// compressed, and comes back as it is.
pub proof fn lemma_round_trip(differences: Seq<Fixed>)
    requires
        differences.len() <= u32::MAX,
        compressed(differences).len() != differences.len(),
    ensures
        decompressed(compressed(differences), differences.len()) == Ok::<
            Seq<Fixed>,
            ShapeDecompressionError,
        >(integrate(differences)),
{
    let stored = compressed(differences);
    assert(stored.subrange(0, stored.len() as int) =~= stored);
    assert(differences.take(0) =~= Seq::<Fixed>::empty());
    lemma_decode_groups(differences, 0, stored, 0);
}

/// Stored samples that number as many as were announced come back as they
/// are.
pub proof fn lemma_uncompressed_unchanged(stored: Seq<Fixed>)
    ensures
        decompressed(stored, stored.len()) == Ok::<Seq<Fixed>, ShapeDecompressionError>(stored),
{
}

} // verus!

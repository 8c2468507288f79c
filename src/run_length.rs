use vstd::prelude::*;

verus! {

/// Value of a continuation digit: how far the code lies above `maxv + 1`.
pub open spec fn digit(code: u16, maxv: u16) -> int {
    code - (maxv + 1)
}

/// The continuation codes read as a numeral in base `lngu`, least
/// significant digit first.
pub open spec fn continuation_value(codes: Seq<u16>, maxv: u16, lngu: u16) -> int
    decreases codes.len(),
{
    if codes.len() == 0 {
        0
    } else {
        digit(codes[0], maxv) + lngu * continuation_value(codes.drop_first(), maxv, lngu)
    }
}

/// A run-length set: a level code followed by continuation codes.
pub open spec fn is_run_set(codes: Seq<u16>, maxv: u16) -> bool {
    &&& codes.len() >= 1
    &&& codes[0] <= maxv
    &&& forall|i: int| 1 <= i < codes.len() ==> codes[i] > maxv
}

/// Number of grid points that a set covers.
pub open spec fn run_count(codes: Seq<u16>, maxv: u16, lngu: u16) -> int {
    continuation_value(codes.drop_first(), maxv, lngu) + 1
}

pub(crate) proof fn lemma_value_nonnegative(codes: Seq<u16>, maxv: u16, lngu: u16)
    requires
        forall|i: int| 0 <= i < codes.len() ==> codes[i] > maxv,
    ensures
        continuation_value(codes, maxv, lngu) >= 0,
    decreases codes.len(),
{
    if codes.len() > 0 {
        lemma_value_nonnegative(codes.drop_first(), maxv, lngu);
        assert(lngu * continuation_value(codes.drop_first(), maxv, lngu) >= 0) by (nonlinear_arith)
            requires
                continuation_value(codes.drop_first(), maxv, lngu) >= 0,
        ;
    }
}

/// With a positive base, dropping low digits never makes the value larger.
proof fn lemma_suffix_value_bounded(codes: Seq<u16>, maxv: u16, lngu: u16, k: int)
    requires
        forall|i: int| 0 <= i < codes.len() ==> codes[i] > maxv,
        0 <= k <= codes.len(),
        lngu >= 1,
    ensures
        continuation_value(codes.subrange(k, codes.len() as int), maxv, lngu)
            <= continuation_value(codes, maxv, lngu),
    decreases k,
{
    if k == 0 {
        assert(codes.subrange(0, codes.len() as int) =~= codes);
    } else {
        let rest = codes.drop_first();
        lemma_suffix_value_bounded(rest, maxv, lngu, k - 1);
        assert(rest.subrange(k - 1, rest.len() as int) =~= codes.subrange(k, codes.len() as int));
        lemma_value_nonnegative(rest, maxv, lngu);
        let v = continuation_value(rest, maxv, lngu);
        assert(v <= lngu * v) by (nonlinear_arith)
            requires
                v >= 0,
                lngu >= 1,
        ;
    }
}

/// Expands one run-length set into its level and the number of grid points
/// that carry it. The continuation codes after the level are digits of a
/// base-`lngu` numeral, least significant first; the count is that numeral
/// plus one.
pub fn expand_run_length(values: &[u16], maxv: u16, lngu: u16) -> (r: (u16, u32))
    requires
        is_run_set(values@, maxv),
        run_count(values@, maxv, lngu) <= u32::MAX,
    ensures
        r.0 == values@[0],
        r.1 == run_count(values@, maxv, lngu),
{
    if values.len() == 1 {
        assert(values@.drop_first().len() == 0);
        return (values[0], 1);
    }
    let ghost conts = values@.drop_first();
    proof {
        assert forall|i: int| 0 <= i < conts.len() implies conts[i] > maxv by {
            assert(conts[i] == values@[i + 1]);
        }
    }
    // Horner's scheme from the most significant digit down.
    let mut acc: u32 = 0;
    let mut i: usize = values.len();
    while i > 1
        invariant
            1 <= i <= values.len(),
            conts == values@.drop_first(),
            forall|j: int| 0 <= j < conts.len() ==> conts[j] > maxv,
            continuation_value(conts, maxv, lngu) + 1 <= u32::MAX,
            acc == continuation_value(conts.subrange(i - 1, conts.len() as int), maxv, lngu),
        decreases i,
    {
        let ghost tail = conts.subrange(i - 1, conts.len() as int);
        let ghost longer = conts.subrange(i - 2, conts.len() as int);
        assert(longer.drop_first() =~= tail);
        assert(longer[0] == values@[i - 1]);
        let d: u16 = values[i - 1] - (maxv + 1);
        proof {
            assert(continuation_value(longer, maxv, lngu) == d + lngu * acc);
            if lngu >= 1 {
                lemma_suffix_value_bounded(conts, maxv, lngu, i - 2);
                lemma_value_nonnegative(tail, maxv, lngu);
                assert(acc * lngu <= d + lngu * acc) by (nonlinear_arith)
                    requires
                        d >= 0,
                ;
            } else {
                assert(lngu == 0);
                assert(acc * lngu == 0) by (nonlinear_arith)
                    requires
                        lngu == 0,
                ;
            }
        }
        acc = acc * (lngu as u32) + (d as u32);
        i -= 1;
    }
    assert(conts.subrange(0, conts.len() as int) =~= conts);
    (values[0], acc + 1)
}

/// Tells whether the set covers at most `limit` grid points, without
/// computing counts that would not fit.
pub fn run_count_at_most(values: &[u16], maxv: u16, lngu: u16, limit: u32) -> (r: bool)
    requires
        is_run_set(values@, maxv),
    ensures
        r == (run_count(values@, maxv, lngu) <= limit),
{
    let ghost conts = values@.drop_first();
    proof {
        assert forall|i: int| 0 <= i < conts.len() implies conts[i] > maxv by {
            assert(conts[i] == values@[i + 1]);
        }
    }
    if limit == 0 {
        proof {
            lemma_value_nonnegative(conts, maxv, lngu);
        }
        return false;
    }
    let mut acc: u64 = 0;
    let mut i: usize = values.len();
    assert(conts.subrange(conts.len() as int, conts.len() as int) =~= Seq::<u16>::empty());
    while i > 1
        invariant
            1 <= i <= values.len(),
            conts == values@.drop_first(),
            forall|j: int| 0 <= j < conts.len() ==> conts[j] > maxv,
            acc == continuation_value(conts.subrange(i - 1, conts.len() as int), maxv, lngu),
            lngu >= 1 ==> acc < limit,
            lngu == 0 ==> acc <= u16::MAX,
        decreases i,
    {
        let ghost tail = conts.subrange(i - 1, conts.len() as int);
        let ghost longer = conts.subrange(i - 2, conts.len() as int);
        assert(longer.drop_first() =~= tail);
        assert(longer[0] == values@[i - 1]);
        let d: u16 = values[i - 1] - (maxv + 1);
        proof {
            assert(acc * lngu <= u32::MAX * u16::MAX) by (nonlinear_arith)
                requires
                    acc <= u32::MAX,
                    lngu <= u16::MAX,
            ;
            assert(acc * lngu == lngu * acc) by (nonlinear_arith);
            if lngu == 0 {
                assert(acc * lngu == 0) by (nonlinear_arith)
                    requires
                        lngu == 0,
                ;
            }
        }
        acc = acc * (lngu as u64) + (d as u64);
        if lngu >= 1 && acc >= limit as u64 {
            proof {
                lemma_suffix_value_bounded(conts, maxv, lngu, i - 2);
            }
            return false;
        }
        i -= 1;
    }
    assert(conts.subrange(0, conts.len() as int) =~= conts);
    acc < limit as u64
}

/// A set holding only its level code covers exactly one grid point.
pub proof fn lemma_single_code_run(v: u16, maxv: u16, lngu: u16)
    requires
        v <= maxv,
    ensures
        is_run_set(seq![v], maxv),
        run_count(seq![v], maxv, lngu) == 1,
{
    assert(seq![v].drop_first() =~= Seq::<u16>::empty());
}

} // verus!

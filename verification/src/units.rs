//! The binary unit (B, KB, MB, GB, TB) in which a byte count is shown.

use vstd::prelude::*;

verus! {

/// A unit of bytes; each is 1024 times the one before.
#[derive(Clone, Copy, Debug, PartialEq, Eq, Structural)]
pub enum ByteUnit {
    B,
    KB,
    MB,
    GB,
    TB,
}

/// The number of bytes in one `u`.
pub open spec fn unit_size(u: ByteUnit) -> nat {
    match u {
        ByteUnit::B => 1,
        ByteUnit::KB => 1024,
        ByteUnit::MB => 1024 * 1024,
        ByteUnit::GB => 1024 * 1024 * 1024,
        ByteUnit::TB => 1024 * 1024 * 1024 * 1024,
    }
}

/// The name under which `u` is shown.
pub open spec fn unit_label(u: ByteUnit) -> Seq<char> {
    match u {
        ByteUnit::B => seq!['B'],
        ByteUnit::KB => seq!['K', 'B'],
        ByteUnit::MB => seq!['M', 'B'],
        ByteUnit::GB => seq!['G', 'B'],
        ByteUnit::TB => seq!['T', 'B'],
    }
}

/// The position of `u` from the smallest unit (`B` is 0, `TB` is 4).
pub open spec fn unit_rank(u: ByteUnit) -> nat {
    match u {
        ByteUnit::B => 0,
        ByteUnit::KB => 1,
        ByteUnit::MB => 2,
        ByteUnit::GB => 3,
        ByteUnit::TB => 4,
    }
}

/// The largest unit of which `bytes` holds at least one, or `B` below one
/// kilobyte.
pub open spec fn unit_for(bytes: nat) -> ByteUnit {
    if bytes >= unit_size(ByteUnit::TB) {
        ByteUnit::TB
    } else if bytes >= unit_size(ByteUnit::GB) {
        ByteUnit::GB
    } else if bytes >= unit_size(ByteUnit::MB) {
        ByteUnit::MB
    } else if bytes >= unit_size(ByteUnit::KB) {
        ByteUnit::KB
    } else {
        ByteUnit::B
    }
}

impl ByteUnit {
    /// The number of bytes in one unit.
    pub fn size_in_bytes(&self) -> (n: u64)
        ensures
            n == unit_size(*self),
    {
        match self {
            ByteUnit::B => 1,
            ByteUnit::KB => 1024,
            ByteUnit::MB => 1024 * 1024,
            ByteUnit::GB => 1024 * 1024 * 1024,
            ByteUnit::TB => 1024 * 1024 * 1024 * 1024,
        }
    }

    /// The name of the unit.
    pub fn label(&self) -> (s: &'static str)
        ensures
            s@ == unit_label(*self),
    {
        match self {
            ByteUnit::B => {
                proof { reveal_strlit("B"); }
                "B"
            },
            ByteUnit::KB => {
                proof { reveal_strlit("KB"); }
                "KB"
            },
            ByteUnit::MB => {
                proof { reveal_strlit("MB"); }
                "MB"
            },
            ByteUnit::GB => {
                proof { reveal_strlit("GB"); }
                "GB"
            },
            ByteUnit::TB => {
                proof { reveal_strlit("TB"); }
                "TB"
            },
        }
    }
}

/// The unit in which the byte amount `numer / denom` is shown (a total has
/// `denom == 1`; an average of `denom` samples summing to `numer` has their
/// count). An amount reaches a unit exactly when its whole part does.
pub fn byte_unit(numer: u128, denom: u128) -> (u: ByteUnit)
    requires
        denom > 0,
    ensures
        u == unit_for((numer / denom) as nat),
{
    let whole = numer / denom;
    if whole >= 1024 * 1024 * 1024 * 1024 {
        ByteUnit::TB
    } else if whole >= 1024 * 1024 * 1024 {
        ByteUnit::GB
    } else if whole >= 1024 * 1024 {
        ByteUnit::MB
    } else if whole >= 1024 {
        ByteUnit::KB
    } else {
        ByteUnit::B
    }
}

/// In the unit chosen for an amount, the amount is at least one unit (but in
/// bytes) and under 1024 units (but in terabytes).
pub proof fn lemma_unit_range(bytes: nat)
    ensures
        unit_for(bytes) == ByteUnit::B || unit_size(unit_for(bytes)) <= bytes,
        unit_for(bytes) == ByteUnit::TB || bytes < 1024 * unit_size(unit_for(bytes)),
{
}

/// A larger amount is never shown in a smaller unit.
pub proof fn lemma_unit_monotonic(a: nat, b: nat)
    requires
        a <= b,
    ensures
        unit_rank(unit_for(a)) <= unit_rank(unit_for(b)),
{
}

/// The same holds of amounts given as quotients, as `byte_unit` takes them:
/// when `na / da <= nb / db` as fractions, the unit of the first is no
/// larger.
pub proof fn lemma_byte_unit_monotonic(na: nat, da: nat, nb: nat, db: nat)
    requires
        da > 0,
        db > 0,
        na * db <= nb * da,
    ensures
        unit_rank(unit_for(na / da)) <= unit_rank(unit_for(nb / db)),
{
    let qa = na / da;
    let qb = nb / db;
    assert(qa <= qb) by (nonlinear_arith)
        requires
            da > 0,
            db > 0,
            na * db <= nb * da,
            qa == na / da,
            qb == nb / db,
    {
        assert(qa * da <= na);
        assert(nb < (qb + 1) * db);
        if qa > qb {
            assert(qa >= qb + 1);
            assert(qa * da * db <= na * db);
            assert(na * db <= nb * da);
            assert(nb * da < (qb + 1) * db * da);
            assert((qb + 1) * db * da <= qa * da * db);
        }
    }
    lemma_unit_monotonic(qa, qb);
}

} // verus!

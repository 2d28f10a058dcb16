//! Turning a control group's CPU quota and period into a whole number of CPUs.

use vstd::prelude::*;
use crate::bytes::{
    bytes_eq, decimal_value, is_decimal, parse_decimal, split, split_fields, views,
};

verus! {

/// `quota / period` rounded up.
pub open spec fn ceil_div(quota: int, period: int) -> int {
    quota / period + if quota % period == 0 {
        0int
    } else {
        1int
    }
}

/// The whole CPUs that `quota` microseconds out of every `period` give:
/// the quotient rounded up, so that the quota can be saturated.
pub fn quota_budget(quota: usize, period: usize) -> (r: usize)
    requires
        period > 0,
    ensures
        r == ceil_div(quota as int, period as int),
        r * period >= quota,
        r == 0 || (r - 1) * period < quota,
{
    let whole = quota / period;
    let rem = quota % period;
    assert(quota == whole * period + rem) by (nonlinear_arith)
        requires
            period > 0,
            whole == quota / period,
            rem == quota % period,
    ;
    if rem == 0 {
        assert(whole * period >= quota);
        assert(whole == 0 || (whole - 1) * period < quota) by (nonlinear_arith)
            requires
                quota == whole * period,
                period > 0,
        ;
        whole
    } else {
        assert(whole < usize::MAX) by (nonlinear_arith)
            requires
                quota == whole * period + rem,
                0 < rem < period,
                quota <= usize::MAX,
        ;
        let r = whole + 1;
        assert(r * period >= quota && (r - 1) * period < quota) by (nonlinear_arith)
            requires
                quota == whole * period + rem,
                0 < rem < period,
                r == whole + 1,
        ;
        r
    }
}

/// The first line of a file's contents.
pub open spec fn first_line(s: Seq<u8>) -> Seq<u8> {
    split_fields(s, 10u8)[0]
}

/// A decimal number that fits in `usize`, or `None`.
pub open spec fn decimal_spec(s: Seq<u8>) -> Option<usize> {
    if is_decimal(s) && decimal_value(s) <= usize::MAX {
        Some(decimal_value(s) as usize)
    } else {
        None
    }
}

/// The quota that stands for "no limit" in a V1 hierarchy.
pub open spec fn unlimited_v1() -> Seq<u8> {
    seq![45u8, 49u8]
}

/// The quota that stands for "no limit" in the unified hierarchy.
pub open spec fn unlimited_v2() -> Seq<u8> {
    seq![109u8, 97u8, 120u8]
}

/// The budget that a quota field and a period field give: `None` where the
/// period is not a positive number or the quota is neither the unlimited token
/// nor a number; `Some(0)` (not constrained) for the unlimited token; else the
/// quotient rounded up.
pub open spec fn budget_spec(quota: Seq<u8>, period: Seq<u8>, unlimited: Seq<u8>) -> Option<usize> {
    match decimal_spec(period) {
        Some(p) if p > 0 => if quota == unlimited {
            Some(0usize)
        } else {
            match decimal_spec(quota) {
                Some(q) => Some(ceil_div(q as int, p as int) as usize),
                None => None,
            }
        },
        _ => None,
    }
}

/// What the contents of a V1 hierarchy's `cpu.cfs_quota_us` and
/// `cpu.cfs_period_us` give; each file's first line is read.
pub open spec fn cpu_quota_v1_spec(quota_file: Seq<u8>, period_file: Seq<u8>) -> Option<usize> {
    budget_spec(first_line(quota_file), first_line(period_file), unlimited_v1())
}

/// What the contents of a unified hierarchy's `cpu.max` give: its first line
/// holds the quota and the period, separated by a space; fewer than two
/// fields give `None`.
pub open spec fn cpu_max_v2_spec(file: Seq<u8>) -> Option<usize> {
    let f = split_fields(first_line(file), 32u8);
    if f.len() < 2 {
        None
    } else {
        budget_spec(f[0], f[1], unlimited_v2())
    }
}

fn budget(quota: &[u8], period: &[u8], unlimited: &[u8]) -> (r: Option<usize>)
    ensures
        r == budget_spec(quota@, period@, unlimited@),
{
    let p = match parse_decimal(period) {
        Some(p) => p,
        None => return None,
    };
    if p == 0 {
        return None;
    }
    if bytes_eq(quota, unlimited) {
        return Some(0);
    }
    match parse_decimal(quota) {
        Some(q) => Some(quota_budget(q, p)),
        None => None,
    }
}

fn first_line_of(s: &[u8]) -> (r: Vec<u8>)
    ensures
        r@ == first_line(s@),
{
    let lines = split(s, 10u8);
    assert(views(lines@).len() == lines@.len());
    assert(views(lines@)[0] == lines@[0]@);
    lines[0].clone()
}

/// The budget that the contents of a V1 hierarchy's quota and period files
/// give: `Some(0)` where the quota is unlimited, `None` where either file does
/// not hold what it should.
pub fn cpu_quota_v1(quota_file: &[u8], period_file: &[u8]) -> (r: Option<usize>)
    ensures
        r == cpu_quota_v1_spec(quota_file@, period_file@),
{
    let q = first_line_of(quota_file);
    let p = first_line_of(period_file);
    let unlimited: [u8; 2] = [45u8, 49u8];
    assert(unlimited@ =~= unlimited_v1());
    budget(q.as_slice(), p.as_slice(), unlimited.as_slice())
}

/// The budget that the contents of a unified hierarchy's `cpu.max` give:
/// `Some(0)` where the quota is `max`, `None` where the file does not hold
/// what it should.
pub fn cpu_max_v2(file: &[u8]) -> (r: Option<usize>)
    ensures
        r == cpu_max_v2_spec(file@),
{
    let line = first_line_of(file);
    let f = split(line.as_slice(), 32u8);
    assert(views(f@).len() == f@.len());
    if f.len() < 2 {
        return None;
    }
    assert(views(f@)[0] == f@[0]@ && views(f@)[1] == f@[1]@);
    let unlimited: [u8; 3] = [109u8, 97u8, 120u8];
    assert(unlimited@ =~= unlimited_v2());
    budget(f[0].as_slice(), f[1].as_slice(), unlimited.as_slice())
}

} // verus!

//! Combining what the operating system reports into the two counts, and
//! counting the physical cores among processor-relationship records.

use vstd::prelude::*;

verus! {

/// The relationship tag of a record that describes one physical core.
pub const RELATION_PROCESSOR_CORE: u32 = 0;

/// The raw logical count, never below one.
pub open spec fn at_least_one(n: usize) -> usize {
    if n == 0 {
        1
    } else {
        n
    }
}

/// The logical CPU count: the raw count (at least one), lowered to the quota
/// budget where there is a positive one.
pub open spec fn cpu_count_spec(budget: Option<usize>, logical: usize) -> usize {
    match budget {
        Some(b) if 0 < b && b < at_least_one(logical) => b,
        _ => at_least_one(logical),
    }
}

/// The physical core count: the count of core records where there is a
/// positive one, else the raw logical count (at least one).
pub open spec fn physical_count_spec(physical: Option<usize>, logical: usize) -> usize {
    match physical {
        Some(p) if p > 0 => p,
        _ => at_least_one(logical),
    }
}

/// The number of records that a buffer of `size` bytes holds: `None` where
/// the size is zero, smaller than one record, or not a whole multiple of the
/// record size.
pub open spec fn record_count_spec(size: u32, record_size: u32) -> Option<u32> {
    if size == 0 || size < record_size || size % record_size != 0 {
        None
    } else {
        Some(size / record_size)
    }
}

/// The number of tags in `tags` that mark a physical core.
pub open spec fn core_tags(tags: Seq<u32>) -> nat
    decreases tags.len(),
{
    if tags.len() == 0 {
        0
    } else {
        core_tags(tags.drop_last()) + if tags.last() == RELATION_PROCESSOR_CORE {
            1nat
        } else {
            0nat
        }
    }
}

/// The physical core count that a filled buffer of `size` bytes gives, whose
/// records carry `tags` in order: `None` where the size is not valid, where
/// fewer tags came than the size announces, or where no record marks a core;
/// else the number of core records among the first `size / record_size`.
pub open spec fn physical_from_records_spec(size: u32, record_size: u32, tags: Seq<u32>) -> Option<
    usize,
> {
    match record_count_spec(size, record_size) {
        None => None,
        Some(n) => if n > tags.len() || core_tags(tags.take(n as int)) == 0 {
            None
        } else {
            Some(core_tags(tags.take(n as int)) as usize)
        },
    }
}

/// The logical CPU count from the quota budget (`None` or `Some(0)` where no
/// quota applies) and the raw count that the operating system reports. Never
/// zero.
pub fn get_num_cpus(budget: Option<usize>, logical: usize) -> (r: usize)
    ensures
        r == cpu_count_spec(budget, logical),
        r >= 1,
        r <= at_least_one(logical),
{
    let raw = if logical == 0 {
        1
    } else {
        logical
    };
    match budget {
        Some(b) => {
            if 0 < b && b < raw {
                b
            } else {
                raw
            }
        },
        None => raw,
    }
}

/// The physical core count from what the native topology query gave (`None`
/// where it failed) and the raw logical count, which stands in where the
/// query gave nothing usable. Never zero.
pub fn get_num_physical_cpus(physical: Option<usize>, logical: usize) -> (r: usize)
    ensures
        r == physical_count_spec(physical, logical),
        r >= 1,
{
    match physical {
        Some(p) => {
            if p > 0 {
                p
            } else if logical == 0 {
                1
            } else {
                logical
            }
        },
        None => if logical == 0 {
            1
        } else {
            logical
        },
    }
}

/// The number of records to make room for, given the size in bytes that the
/// first, sizing query reported.
pub fn record_count(size: u32, record_size: u32) -> (r: Option<u32>)
    requires
        record_size > 0,
    ensures
        r == record_count_spec(size, record_size),
{
    if size == 0 || size < record_size || size % record_size != 0 {
        None
    } else {
        Some(size / record_size)
    }
}

/// Counts the physical cores among the records that the filling query gave:
/// `size` is the byte count it reported and `tags` the relationship tag of
/// each record, in order.
pub fn get_num_physical_cpus_windows(size: u32, record_size: u32, tags: &[u32]) -> (r: Option<
    usize,
>)
    requires
        record_size > 0,
    ensures
        r == physical_from_records_spec(size, record_size, tags@),
{
    let n = match record_count(size, record_size) {
        Some(n) => n as usize,
        None => return None,
    };
    if n > tags.len() {
        return None;
    }
    let mut count: usize = 0;
    let mut i: usize = 0;
    while i < n
        invariant
            i <= n <= tags@.len(),
            count == core_tags(tags@.take(i as int)),
            count <= i,
        decreases n - i,
    {
        assert(tags@.take(i as int + 1).drop_last() =~= tags@.take(i as int));
        if tags[i] == RELATION_PROCESSOR_CORE {
            count = count + 1;
        }
        i = i + 1;
    }
    if count == 0 {
        None
    } else {
        Some(count)
    }
}

/// Both counts are at least one, whatever the operating system reported.
pub proof fn lemma_counts_positive(budget: Option<usize>, physical: Option<usize>, logical: usize)
    ensures
        cpu_count_spec(budget, logical) >= 1,
        physical_count_spec(physical, logical) >= 1,
{
}

/// Where no quota lowers the logical count and the hardware reports no more
/// cores than logical processors, the physical count does not exceed the
/// logical count.
pub proof fn lemma_physical_at_most_logical(
    budget: Option<usize>,
    physical: Option<usize>,
    logical: usize,
)
    requires
        budget is None || budget == Some(0usize),
        physical matches Some(p) ==> p <= logical,
    ensures
        physical_count_spec(physical, logical) <= cpu_count_spec(budget, logical),
{
}

/// A buffer size that is not a whole multiple of the record size makes the
/// topology reader fail, and the physical count then is the raw logical count
/// that the logical query gives where no quota applies.
pub proof fn lemma_misaligned_buffer_falls_back(
    size: u32,
    record_size: u32,
    tags: Seq<u32>,
    logical: usize,
)
    requires
        record_size > 0,
        size % record_size != 0,
    ensures
        physical_from_records_spec(size, record_size, tags) is None,
        physical_count_spec(physical_from_records_spec(size, record_size, tags), logical)
            == cpu_count_spec(None, logical),
{
}

} // verus!

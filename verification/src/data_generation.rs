use vstd::prelude::*;

verus! {

/// `rand::random_range` over `start..=end`, drawn from the thread-local generator.
/// What comes back is random; the crate promises only that it lies in the range
/// (`random_range` panics on an empty range, hence the requirement).
#[verifier::external_body]
fn draw_in_range(start: i64, end: i64) -> (r: i64)
    requires
        start <= end,
    ensures
        start <= r <= end,
{
    rand::random_range(start..=end)
}

/// A vector of `size` default values.
pub fn new_numeric_vector_with_size<T: Default>(size: usize) -> (r: Vec<T>)
    ensures
        r.len() == size,
        forall|i: int| 0 <= i < size ==> call_ensures(T::default, (), #[trigger] r@[i]),
{
    let mut vec: Vec<T> = Vec::with_capacity(size);
    let mut k: usize = 0;
    while k < size
        invariant
            vec.len() == k,
            k <= size,
            forall|i: int| 0 <= i < k ==> call_ensures(T::default, (), #[trigger] vec@[i]),
        decreases size - k,
    {
        let value = T::default();
        vec.push(value);
        k = k + 1;
    }
    vec
}

/// A vector of `size` random values, each in `range_start..=range_end`.
pub fn new_numeric_vector_with_size_and_range(size: usize, range_start: i64, range_end: i64) -> (r: Vec<i64>)
    requires
        size > 0 ==> range_start <= range_end,
    ensures
        r.len() == size,
        forall|i: int| 0 <= i < size ==> range_start <= #[trigger] r@[i] <= range_end,
{
    let mut vec: Vec<i64> = Vec::with_capacity(size);
    let mut k: usize = 0;
    while k < size
        invariant
            vec.len() == k,
            k <= size,
            size > 0 ==> range_start <= range_end,
            forall|i: int| 0 <= i < k ==> range_start <= #[trigger] vec@[i] <= range_end,
        decreases size - k,
    {
        let value = draw_in_range(range_start, range_end);
        vec.push(value);
        k = k + 1;
    }
    vec
}

/// A random value in `range_start..=range_end`.
pub fn random_numeric(range_start: i64, range_end: i64) -> (r: i64)
    requires
        range_start <= range_end,
    ensures
        range_start <= r <= range_end,
{
    draw_in_range(range_start, range_end)
}

} // verus!

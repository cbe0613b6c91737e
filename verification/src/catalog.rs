use vstd::prelude::*;
use crate::two_sum::RegularArgs;

verus! {

/// The algorithms that can be run and profiled.
#[derive(Clone, Copy, Debug, PartialEq, Eq, Structural)]
pub enum AlgorithmKind {
    TwoSum,
}

/// Whether two strings hold the same characters.
pub fn same_text(a: &str, b: &str) -> (r: bool)
    ensures
        r == (a@ == b@),
{
    let n = a.unicode_len();
    if n != b.unicode_len() {
        return false;
    }
    let mut i: usize = 0;
    while i < n
        invariant
            n == a@.len(),
            n == b@.len(),
            i <= n,
            forall|k: int| 0 <= k < i ==> a@[k] == b@[k],
        decreases n - i,
    {
        if a.get_char(i) != b.get_char(i) {
            return false;
        }
        i = i + 1;
    }
    assert(a@ =~= b@);
    true
}

/// The algorithm with the given name, if there is one.
pub fn find_algorithm(name: &str) -> (r: Option<AlgorithmKind>)
    ensures
        r == (if name@ == "two_sum"@ {
            Some(AlgorithmKind::TwoSum)
        } else {
            None
        }),
{
    if same_text(name, "two_sum") {
        Some(AlgorithmKind::TwoSum)
    } else {
        None
    }
}

/// The complexity and description listed for an algorithm's name; a name that is
/// not known is listed as `Unknown` and `Algorithm`.
pub fn algorithm_summary(name: &str) -> (r: (&'static str, &'static str))
    ensures
        r == (if name@ == "two_sum"@ {
            ("O(n)", "Find two numbers that sum to target")
        } else {
            ("Unknown", "Algorithm")
        }),
{
    match find_algorithm(name) {
        Some(AlgorithmKind::TwoSum) => ("O(n)", "Find two numbers that sum to target"),
        None => ("Unknown", "Algorithm"),
    }
}

/// The sample input that `run` uses for two-sum.
pub fn two_sum_sample() -> (r: RegularArgs)
    ensures
        r.nums@ == seq![2i64, 7, 11, 15],
        r.target == 9,
{
    RegularArgs { nums: vec![2, 7, 11, 15], target: 9 }
}

} // verus!

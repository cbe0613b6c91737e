use vstd::prelude::*;
use std::collections::HashMap;
use std::time::Duration;
use crate::algo_input::{
    arg_values, attribute_range, data_generation, fields_wf, has_kind, input_fits, is_first_of_kind,
    lemma_first_of_kind_unique, lemma_schedule_step, lemma_size_schedule_steps, plan_range,
    plan_upto, setter_fits, size_schedule, value_fits, AttrArg, AttrKind, FieldAttribute,
    FieldSetter, FieldValue, InputField,
};
use crate::clock::{instant_elapsed, instant_now};

verus! {

broadcast use vstd::std_specs::hash::group_hash_axioms;

/// Smallest and largest element of a generated input.
pub const ELEMENT_MIN: i64 = -1000;
pub const ELEMENT_MAX: i64 = 1000;
/// Smallest and largest target of a generated input.
pub const TARGET_MIN: i64 = 0;
pub const TARGET_MAX: i64 = 100;
/// Input sizes used when the profiler is asked for the default range.
pub const DEFAULT_SIZE_MIN: i64 = 0;
pub const DEFAULT_SIZE_MAX: i64 = 100;

/// One input of the two-sum problem: numbers and the sum to find.
#[derive(Clone, Debug)]
pub struct RegularArgs {
    pub nums: Vec<i64>,
    pub target: i64,
}

/// `nums[j]` and `nums[i]`, with `j < i`, add up to `target`.
pub open spec fn is_pair(nums: Seq<i64>, target: i64, j: int, i: int) -> bool {
    &&& 0 <= j < i < nums.len()
    &&& nums[j] + nums[i] == target
}

/// Some earlier element adds up with `nums[i]` to `target`.
pub open spec fn has_partner(nums: Seq<i64>, target: i64, i: int) -> bool {
    exists|j: int| is_pair(nums, target, j, i)
}

/// Some two elements add up to `target`.
pub open spec fn has_pair(nums: Seq<i64>, target: i64) -> bool {
    exists|i: int| has_partner(nums, target, i)
}

/// The answer of the scan from left to right: `[j, i]` where `i` is the first index
/// that completes a pair and `j` the last earlier index that completes it;
/// empty when no two elements add up to `target`.
pub open spec fn is_two_sum_answer(nums: Seq<i64>, target: i64, r: Seq<i64>) -> bool {
    if has_pair(nums, target) {
        &&& r.len() == 2
        &&& is_pair(nums, target, r[0] as int, r[1] as int)
        &&& forall|i: int| 0 <= i < r[1] ==> !has_partner(nums, target, i)
        &&& forall|j: int| r[0] < j < r[1] ==> #[trigger] nums[j] + nums[r[1] as int] != target
    } else {
        r.len() == 0
    }
}

/// `target - nums[i]` fits in `i64` for every element.
pub open spec fn complements_fit(nums: Seq<i64>, target: i64) -> bool {
    forall|i: int| 0 <= i < nums.len() ==> i64::MIN <= target - #[trigger] nums[i] <= i64::MAX
}

/// Finds two indices whose elements add up to the target, scanning once with a
/// map from each value seen to its last index.
pub fn algo(args: RegularArgs) -> (r: Vec<i64>)
    requires
        args.nums.len() <= i64::MAX,
        complements_fit(args.nums@, args.target),
    ensures
        is_two_sum_answer(args.nums@, args.target, r@),
{
    let ghost nums = args.nums@;
    let target = args.target;
    let mut map: HashMap<i64, usize> = HashMap::new();
    let n = args.nums.len();
    let mut i: usize = 0;
    while i < n
        invariant
            nums == args.nums@,
            target == args.target,
            n == nums.len(),
            n <= i64::MAX,
            i <= n,
            complements_fit(nums, target),
            forall|v: i64|
                #[trigger] map@.contains_key(v) ==> {
                    &&& map@[v] < i
                    &&& nums[map@[v] as int] == v
                    &&& forall|k: int| map@[v] < k < i ==> nums[k] != v
                },
            forall|k: int| 0 <= k < i ==> map@.contains_key(#[trigger] nums[k]),
            forall|k: int| 0 <= k < i ==> !has_partner(nums, target, k),
        decreases n - i,
    {
        let num = args.nums[i];
        let wanted = target - num;
        match map.get(&wanted) {
            Some(j) => {
                let j = *j;
                proof {
                    assert(is_pair(nums, target, j as int, i as int));
                    assert(has_partner(nums, target, i as int));
                }
                let r = vec![j as i64, i as i64];
                return r;
            },
            None => {},
        }
        proof {
            assert forall|j: int| !is_pair(nums, target, j, i as int) by {
                if is_pair(nums, target, j, i as int) {
                    assert(map@.contains_key(nums[j]));
                }
            }
        }
        map.insert(num, i);
        i = i + 1;
    }
    proof {
        assert forall|k: int| !has_partner(nums, target, k) by {
            if has_partner(nums, target, k) {
                let j = choose|j: int| is_pair(nums, target, j, k);
                assert(0 <= k < n);
            }
        }
    }
    vec![]
}

/// The range that a request for test data stands for: all three zero asks for the
/// default sizes, one by one.
pub open spec fn effective_range(n_start: i64, n_end: i64, step_by: i64) -> (int, int, int) {
    plan_range(n_start, n_end, step_by, DEFAULT_SIZE_MIN, DEFAULT_SIZE_MAX)
}

/// The input sizes of the test data for a request.
pub open spec fn test_sizes(n_start: i64, n_end: i64, step_by: i64) -> Seq<int> {
    let (s, e, st) = effective_range(n_start, n_end, step_by);
    size_schedule(s, e, st)
}

/// A request for test data that terminates without a panic: a non-empty range has a
/// positive step, and every size is a valid length whose sum with the step stays
/// within `i64`.
pub open spec fn valid_test_range(n_start: i64, n_end: i64, step_by: i64) -> bool {
    let (s, e, st) = effective_range(n_start, n_end, step_by);
    let sizes = size_schedule(s, e, st);
    &&& s <= e ==> st > 0
    &&& forall|k: int|
        0 <= k < sizes.len() ==> 0 <= #[trigger] sizes[k] <= usize::MAX && sizes[k] + st <= i64::MAX
}

/// A generated input of the given size: elements and target within their ranges.
pub open spec fn is_test_input(args: RegularArgs, size: int) -> bool {
    &&& args.nums.len() == size
    &&& forall|m: int| 0 <= m < size ==> ELEMENT_MIN <= #[trigger] args.nums@[m] <= ELEMENT_MAX
    &&& TARGET_MIN <= args.target <= TARGET_MAX
}

/// The two setters of `RegularArgs`' generator.
pub open spec fn regular_args_setters() -> Seq<FieldSetter> {
    seq![
        FieldSetter::SizedVector { field: 0, min: ELEMENT_MIN, max: ELEMENT_MAX },
        FieldSetter::Scalar { field: 1, min: TARGET_MIN, max: TARGET_MAX },
    ]
}

impl RegularArgs {
    /// Random inputs, one for each size from `n_start` to `n_end` by `step_by`
    /// (from 0 to 100 by 1 when all three are zero), made by the generator that the
    /// fields' attributes describe.
    pub fn new_test_data(n_start: i64, n_end: i64, step_by: i64) -> (r: Vec<RegularArgs>)
        requires
            valid_test_range(n_start, n_end, step_by),
        ensures
            r.len() == test_sizes(n_start, n_end, step_by).len(),
            forall|k: int|
                0 <= k < r.len() ==> is_test_input(
                    #[trigger] r@[k],
                    test_sizes(n_start, n_end, step_by)[k],
                ),
    {
        let ghost sizes = test_sizes(n_start, n_end, step_by);
        let fields = RegularArgs::input_fields();
        proof {
            lemma_regular_args_plan(fields@);
        }
        let plan = data_generation(&fields);
        proof {
            assert(plan.setters@ =~= regular_args_setters());
            assert(plan.sizes(n_start, n_end, step_by) == sizes);
            assert forall|k: int, j: int|
                0 <= k < sizes.len() && 0 <= j < plan.setters@.len() implies setter_fits(
                #[trigger] plan.setters@[j],
                #[trigger] sizes[k],
            ) by {
                assert(0 <= sizes[k] <= usize::MAX);
            }
        }
        let inputs = plan.generate(n_start, n_end, step_by);
        let mut vec: Vec<RegularArgs> = Vec::new();
        for input in it: inputs
            invariant
                it.seq() == inputs@,
                inputs@.len() == sizes.len(),
                plan.setters@ == regular_args_setters(),
                forall|k: int| 0 <= k < inputs@.len() ==> input_fits(
                    regular_args_setters(),
                    (#[trigger] inputs@[k])@,
                    sizes[k],
                ),
                vec.len() == it.index(),
                forall|k: int| 0 <= k < vec.len() ==> is_test_input(#[trigger] vec@[k], sizes[k]),
        {
            let ghost k = it.index();
            let mut input = input;
            proof {
                assert(input_fits(regular_args_setters(), input@, sizes[k]));
                assert(value_fits(regular_args_setters()[0], input@[0], sizes[k]));
                assert(value_fits(regular_args_setters()[1], input@[1], sizes[k]));
            }
            let target = match input.pop() {
                Some(FieldValue::Scalar(t)) => t,
                _ => {
                    assert(false);
                    0
                },
            };
            let nums = match input.pop() {
                Some(FieldValue::Vector(v)) => v,
                _ => {
                    assert(false);
                    Vec::new()
                },
            };
            vec.push(RegularArgs { nums, target });
        }
        vec
    }
}

/// Times `algo` on random inputs, one for each size from `n_start` to `n_end` by
/// `step_by` (from 0 to 100 by 1 when all three are zero); gives each size with
/// the time that the run took.
pub fn algo_profile(n_start: i64, n_end: i64, step_by: i64) -> (r: Vec<(i64, Duration)>)
    requires
        valid_test_range(n_start, n_end, step_by),
    ensures
        r.len() == test_sizes(n_start, n_end, step_by).len(),
        forall|k: int| 0 <= k < r.len() ==> (#[trigger] r@[k]).0 == test_sizes(n_start, n_end, step_by)[k],
{
    let ghost sizes = test_sizes(n_start, n_end, step_by);
    let dataset = RegularArgs::new_test_data(n_start, n_end, step_by);
    let step = if step_by == 0 {
        1
    } else {
        step_by
    };
    let ghost (s, e, st) = effective_range(n_start, n_end, step_by);
    let mut results: Vec<(i64, Duration)> = Vec::with_capacity(dataset.len());
    let mut n_size = n_start;
    let ghost mut done: Seq<int> = Seq::empty();
    assert(sizes =~= done + size_schedule(n_size as int, e, st));
    for args in it: dataset
        invariant
            it.seq() == dataset@,
            dataset@.len() == sizes.len(),
            forall|k: int| 0 <= k < dataset@.len() ==> is_test_input(#[trigger] dataset@[k], sizes[k]),
            sizes == done + size_schedule(n_size as int, e, st),
            done.len() == it.index(),
            results.len() == it.index(),
            forall|k: int| 0 <= k < results.len() ==> (#[trigger] results@[k]).0 == done[k],
            s <= e && st > 0 ==> st == step,
            sizes == size_schedule(s, e, st),
            valid_test_range(n_start, n_end, step_by),
            (s, e, st) == effective_range(n_start, n_end, step_by),
    {
        let ghost k = it.index();
        proof {
            assert(sizes[k] == dataset@[k].nums.len());
            assert(s <= e && st > 0);
            assert(size_schedule(n_size as int, e, st).len() > 0);
            lemma_schedule_step(n_size as int, e, st);
            assert(sizes[k] == n_size);
            lemma_size_schedule_steps(s, e, st);
        }
        let start = instant_now();
        let _ = algo(args);
        let elapsed = instant_elapsed(&start);
        results.push((n_size, elapsed));
        proof {
            assert(done.push(n_size as int) + size_schedule(n_size + st, e, st)
                =~= done + size_schedule(n_size as int, e, st));
            done = done.push(n_size as int);
        }
        n_size = n_size + step;
    }
    results
}

/// An answer is either empty, when no two elements add up to the target, or two
/// increasing indices whose elements add up to it.
pub proof fn lemma_two_sum_answer(nums: Seq<i64>, target: i64, r: Seq<i64>)
    requires
        is_two_sum_answer(nums, target, r),
    ensures
        r.len() == 0 || r.len() == 2,
        r.len() == 2 ==> 0 <= r[0] < r[1] < nums.len() && nums[r[0] as int] + nums[r[1] as int] == target,
        r.len() == 0 <==> forall|j: int, i: int|
            0 <= j < i < nums.len() ==> #[trigger] nums[j] + #[trigger] nums[i] != target,
{
    if r.len() == 0 {
        assert forall|j: int, i: int| 0 <= j < i < nums.len() implies #[trigger] nums[j] + #[trigger] nums[i]
            != target by {
            if nums[j] + nums[i] == target {
                assert(is_pair(nums, target, j, i));
                assert(has_partner(nums, target, i));
            }
        }
    } else {
        let j = r[0] as int;
        let i = r[1] as int;
        assert(nums[j] + nums[i] == target);
    }
}

/// An attribute of the given kind with the two integer arguments `lo` and `hi`.
pub open spec fn is_range_attr(a: FieldAttribute, kind: AttrKind, lo: i64, hi: i64) -> bool {
    &&& a.kind == kind
    &&& a.args matches Some(v) && v@ == seq![
        if lo < 0 { AttrArg::Neg((-lo) as i64) } else { AttrArg::Int(lo) },
        AttrArg::Int(hi),
    ]
}

/// The fields of `RegularArgs` with their attributes: `nums`, a vector with
/// `n_size(0, 100)` and `element_range(-1000, 1000)`, and `target`, a scalar with
/// `element_range(0, 100)`.
pub open spec fn describes_regular_args(fields: Seq<InputField>) -> bool {
    &&& fields.len() == 2
    &&& fields[0].is_vector
    &&& fields[0].attrs@.len() == 2
    &&& is_range_attr(fields[0].attrs@[0], AttrKind::NSize, DEFAULT_SIZE_MIN, DEFAULT_SIZE_MAX)
    &&& is_range_attr(fields[0].attrs@[1], AttrKind::ElementRange, ELEMENT_MIN, ELEMENT_MAX)
    &&& !fields[1].is_vector
    &&& fields[1].attrs@.len() == 1
    &&& is_range_attr(fields[1].attrs@[0], AttrKind::ElementRange, TARGET_MIN, TARGET_MAX)
}

fn range_attr(kind: AttrKind, lo: i64, hi: i64) -> (r: FieldAttribute)
    requires
        lo > i64::MIN,
        hi >= 0,
    ensures
        is_range_attr(r, kind, lo, hi),
{
    let first = if lo < 0 {
        AttrArg::Neg(-lo)
    } else {
        AttrArg::Int(lo)
    };
    let r = FieldAttribute { kind, args: Some(vec![first, AttrArg::Int(hi)]) };
    r
}

impl RegularArgs {
    /// The fields of this input with the attributes that drive its generation.
    pub fn input_fields() -> (r: Vec<InputField>)
        ensures
            describes_regular_args(r@),
    {
        let nums = InputField {
            is_vector: true,
            attrs: vec![
                range_attr(AttrKind::NSize, DEFAULT_SIZE_MIN, DEFAULT_SIZE_MAX),
                range_attr(AttrKind::ElementRange, ELEMENT_MIN, ELEMENT_MAX),
            ],
        };
        let target = InputField {
            is_vector: false,
            attrs: vec![range_attr(AttrKind::ElementRange, TARGET_MIN, TARGET_MAX)],
        };
        vec![nums, target]
    }
}

/// The range given by an attribute with two integer arguments.
proof fn lemma_range_attr(attrs: Seq<FieldAttribute>, i: int, kind: AttrKind, lo: i64, hi: i64)
    requires
        is_first_of_kind(attrs, kind, i),
        is_range_attr(attrs[i], kind, lo, hi),
        lo > i64::MIN,
    ensures
        attribute_range(attrs, kind) == Some((lo, hi)),
        has_kind(attrs, kind),
{
    lemma_first_of_kind_unique(attrs, kind, i);
    let v = attrs[i].args->0;
    reveal_with_fuel(arg_values, 3);
    assert(v@.drop_last().drop_last() =~= Seq::<AttrArg>::empty());
    assert(v@.drop_last() =~= seq![v@[0]]);
    assert(arg_values(v@) =~= seq![lo, hi]);
}

/// The generator that the attributes of `RegularArgs` describe is the one that
/// `new_test_data` runs: sizes 0 to 100, `nums` a vector of values in -1000..=1000
/// of the input size, `target` one value in 0..=100.
pub proof fn lemma_regular_args_plan(fields: Seq<InputField>)
    requires
        describes_regular_args(fields),
    ensures
        fields_wf(fields),
        plan_upto(fields, 2) == (
            DEFAULT_SIZE_MIN,
            DEFAULT_SIZE_MAX,
            seq![
                FieldSetter::SizedVector { field: 0, min: ELEMENT_MIN, max: ELEMENT_MAX },
                FieldSetter::Scalar { field: 1, min: TARGET_MIN, max: TARGET_MAX },
            ],
        ),
{
    let a0 = fields[0].attrs@;
    let a1 = fields[1].attrs@;
    lemma_range_attr(a0, 0, AttrKind::NSize, DEFAULT_SIZE_MIN, DEFAULT_SIZE_MAX);
    lemma_range_attr(a0, 1, AttrKind::ElementRange, ELEMENT_MIN, ELEMENT_MAX);
    lemma_range_attr(a1, 0, AttrKind::ElementRange, TARGET_MIN, TARGET_MAX);
    assert(has_kind(a0, AttrKind::NSize));
    assert(!has_kind(a1, AttrKind::NSize)) by {
        if has_kind(a1, AttrKind::NSize) {
            let i = choose|i: int| 0 <= i < a1.len() && (#[trigger] a1[i]).kind == AttrKind::NSize;
            assert(i == 0);
        }
    }
    assert forall|k: int| 0 <= k < fields.len() implies crate::algo_input::attrs_wf((#[trigger] fields[k]).attrs@) by {
        let attrs = fields[k].attrs@;
        assert forall|i: int| 0 <= i < attrs.len() implies match (#[trigger] attrs[i]).args {
            Some(args) => crate::algo_input::args_wf(args@),
            None => true,
        } by {
            let v = attrs[i].args->0;
            assert(v@.len() == 2);
        }
    }
    reveal_with_fuel(plan_upto, 3);
}

} // verus!

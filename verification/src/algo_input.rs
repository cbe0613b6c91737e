use vstd::prelude::*;
use crate::data_generation::{new_numeric_vector_with_size_and_range, random_numeric};

verus! {

/// The kind of a field attribute that drives test-data generation.
#[derive(Clone, Copy, Debug, PartialEq, Eq, Structural)]
pub enum AttrKind {
    /// `n_size(min, max)`: the range of input sizes.
    NSize,
    /// `element_range(min, max)`: the range of generated values.
    ElementRange,
    /// Any other attribute.
    Other,
}

/// One argument of a list attribute.
#[derive(Clone, Copy, Debug, PartialEq, Eq, Structural)]
pub enum AttrArg {
    /// An integer literal with the given (non-negative) value.
    Int(i64),
    /// A negated integer literal; the value is that of the literal.
    Neg(i64),
    /// Any other expression, or a literal that does not fit in `i64`.
    Other,
}

/// An attribute on a field: its kind, and its arguments when it is a list of
/// comma-separated expressions (`None` when it is not a list or does not parse).
#[derive(Debug)]
pub struct FieldAttribute {
    pub kind: AttrKind,
    pub args: Option<Vec<AttrArg>>,
}

/// A named field of an input struct: whether its type is a `Vec`, and its attributes.
#[derive(Debug)]
pub struct InputField {
    pub is_vector: bool,
    pub attrs: Vec<FieldAttribute>,
}

/// How one field of a generated input is filled.
#[derive(Clone, Copy, Debug, PartialEq, Eq, Structural)]
pub enum FieldSetter {
    /// The field at this index gets a vector of the input size, of values in `min..=max`.
    SizedVector { field: usize, min: i64, max: i64 },
    /// The field at this index gets one value in `min..=max`.
    Scalar { field: usize, min: i64, max: i64 },
}

/// The generator for an input struct: the default range of sizes and the fields'
/// setters, in field order.
#[derive(Debug)]
pub struct TestDataPlan {
    pub n_min: i64,
    pub n_max: i64,
    pub setters: Vec<FieldSetter>,
}

/// The sizes that a plan uses when none are given.
pub const DEFAULT_N_MIN: i64 = 0;
pub const DEFAULT_N_MAX: i64 = 100;

/// The value that an argument contributes, if any.
pub open spec fn arg_value(a: AttrArg) -> Seq<i64> {
    match a {
        AttrArg::Int(v) => seq![v],
        AttrArg::Neg(v) => seq![(-v) as i64],
        AttrArg::Other => Seq::empty(),
    }
}

/// The integer values among the arguments, in order.
pub open spec fn arg_values(args: Seq<AttrArg>) -> Seq<i64>
    decreases args.len(),
{
    if args.len() == 0 {
        Seq::empty()
    } else {
        arg_values(args.drop_last()) + arg_value(args.last())
    }
}

/// Literals are not negative.
pub open spec fn args_wf(args: Seq<AttrArg>) -> bool {
    forall|i: int|
        0 <= i < args.len() ==> match #[trigger] args[i] {
            AttrArg::Int(v) => v >= 0,
            AttrArg::Neg(v) => v >= 0,
            AttrArg::Other => true,
        }
}

/// Whether some attribute has the kind.
pub open spec fn has_kind(attrs: Seq<FieldAttribute>, kind: AttrKind) -> bool {
    exists|i: int| 0 <= i < attrs.len() && (#[trigger] attrs[i]).kind == kind
}

/// `i` is the first attribute of the kind.
pub open spec fn is_first_of_kind(attrs: Seq<FieldAttribute>, kind: AttrKind, i: int) -> bool {
    &&& 0 <= i < attrs.len()
    &&& attrs[i].kind == kind
    &&& forall|k: int| 0 <= k < i ==> (#[trigger] attrs[k]).kind != kind
}

/// The range that the first attribute of the kind gives: its two integer values,
/// when it is a list with exactly two of them.
pub open spec fn attribute_range(attrs: Seq<FieldAttribute>, kind: AttrKind) -> Option<(i64, i64)> {
    if exists|i: int| is_first_of_kind(attrs, kind, i) {
        let i = choose|i: int| is_first_of_kind(attrs, kind, i);
        match attrs[i].args {
            Some(args) => {
                let vs = arg_values(args@);
                if vs.len() == 2 {
                    Some((vs[0], vs[1]))
                } else {
                    None
                }
            },
            None => None,
        }
    } else {
        None
    }
}

/// Every attribute's literals are not negative.
pub open spec fn attrs_wf(attrs: Seq<FieldAttribute>) -> bool {
    forall|i: int|
        0 <= i < attrs.len() ==> match (#[trigger] attrs[i]).args {
            Some(args) => args_wf(args@),
            None => true,
        }
}

/// The first attribute of a kind is unique.
pub proof fn lemma_first_of_kind_unique(attrs: Seq<FieldAttribute>, kind: AttrKind, i: int)
    requires
        is_first_of_kind(attrs, kind, i),
    ensures
        (choose|j: int| is_first_of_kind(attrs, kind, j)) == i,
{
    let j = choose|j: int| is_first_of_kind(attrs, kind, j);
    assert(is_first_of_kind(attrs, kind, j));
    if j < i {
        assert(attrs[j].kind != kind);
    } else if i < j {
        assert(attrs[i].kind != kind);
    }
}

/// The integer values among a list attribute's arguments.
fn collect_values(args: &Vec<AttrArg>) -> (r: Vec<i64>)
    requires
        args_wf(args@),
    ensures
        r@ == arg_values(args@),
{
    let mut values: Vec<i64> = Vec::new();
    let mut i: usize = 0;
    while i < args.len()
        invariant
            i <= args@.len(),
            args_wf(args@),
            values@ == arg_values(args@.take(i as int)),
        decreases args@.len() - i,
    {
        assert(args@.take(i + 1).drop_last() =~= args@.take(i as int));
        match args[i] {
            AttrArg::Int(v) => values.push(v),
            AttrArg::Neg(v) => values.push(-v),
            AttrArg::Other => {},
        }
        assert(values@ =~= arg_values(args@.take(i + 1)));
        i = i + 1;
    }
    assert(args@.take(args@.len() as int) =~= args@);
    values
}

/// The `[min, max]` pair given by the field's first attribute of the kind.
pub fn get_attribute_range(field: &InputField, attr_name: AttrKind) -> (r: Option<Vec<i64>>)
    requires
        attrs_wf(field.attrs@),
        attribute_range(field.attrs@, attr_name) is Some,
    ensures
        r matches Some(v) && v@.len() == 2 && attribute_range(field.attrs@, attr_name) == Some(
            (v@[0], v@[1]),
        ),
{
    let ghost attrs = field.attrs@;
    let mut i: usize = 0;
    while i < field.attrs.len()
        invariant
            attrs == field.attrs@,
            i <= attrs.len(),
            forall|k: int| 0 <= k < i ==> (#[trigger] attrs[k]).kind != attr_name,
            attribute_range(attrs, attr_name) is Some,
            attrs_wf(attrs),
        decreases attrs.len() - i,
    {
        let found = match (field.attrs[i].kind, attr_name) {
            (AttrKind::NSize, AttrKind::NSize) => true,
            (AttrKind::ElementRange, AttrKind::ElementRange) => true,
            (AttrKind::Other, AttrKind::Other) => true,
            _ => false,
        };
        if found {
            proof {
                lemma_first_of_kind_unique(attrs, attr_name, i as int);
            }
            match &field.attrs[i].args {
                Some(args) => {
                    assert(args_wf(args@)) by {
                        assert(attrs_wf(attrs));
                        assert(attrs[i as int].args == Some(*args));
                    }
                    let values = collect_values(args);
                    return Some(vec![values[0], values[1]]);
                },
                None => {
                    assert(false);
                    return None;
                },
            }
        }
        i = i + 1;
    }
    proof {
        if exists|j: int| is_first_of_kind(attrs, attr_name, j) {
            let j = choose|j: int| is_first_of_kind(attrs, attr_name, j);
            assert(attrs[j].kind != attr_name);
        }
    }
    assert(false);
    None
}

/// The range, or `fallback` when there is none.
pub open spec fn range_or(r: Option<(i64, i64)>, fallback: (i64, i64)) -> (i64, i64) {
    match r {
        Some(p) => p,
        None => fallback,
    }
}

/// The generator after the first `k` fields: a field with `n_size` sets the range of
/// sizes; a field with `element_range` gets a setter, a vector one only when the
/// field also has `n_size`.
pub open spec fn plan_upto(fields: Seq<InputField>, k: int) -> (i64, i64, Seq<FieldSetter>)
    decreases k,
{
    if k <= 0 {
        (DEFAULT_N_MIN, DEFAULT_N_MAX, Seq::empty())
    } else {
        let (lo, hi, setters) = plan_upto(fields, k - 1);
        let attrs = fields[k - 1].attrs@;
        let is_n = has_kind(attrs, AttrKind::NSize);
        let n_range = if is_n {
            range_or(attribute_range(attrs, AttrKind::NSize), (lo, hi))
        } else {
            (lo, hi)
        };
        let (mn, mx) = range_or(attribute_range(attrs, AttrKind::ElementRange), (0, 0));
        let new_setters = if has_kind(attrs, AttrKind::ElementRange) {
            if fields[k - 1].is_vector {
                if is_n {
                    setters.push(FieldSetter::SizedVector { field: (k - 1) as usize, min: mn, max: mx })
                } else {
                    setters
                }
            } else {
                setters.push(FieldSetter::Scalar { field: (k - 1) as usize, min: mn, max: mx })
            }
        } else {
            setters
        };
        (n_range.0, n_range.1, new_setters)
    }
}

/// Each field's attributes are well formed, and every `n_size` or `element_range`
/// attribute that is read gives two integers.
pub open spec fn fields_wf(fields: Seq<InputField>) -> bool {
    forall|k: int|
        0 <= k < fields.len() ==> {
            let attrs = (#[trigger] fields[k]).attrs@;
            &&& attrs_wf(attrs)
            &&& has_kind(attrs, AttrKind::NSize) ==> attribute_range(attrs, AttrKind::NSize) is Some
            &&& has_kind(attrs, AttrKind::ElementRange) ==> attribute_range(
                attrs,
                AttrKind::ElementRange,
            ) is Some
        }
}

/// Whether some attribute has the kind.
fn has_attr(attrs: &Vec<FieldAttribute>, kind: AttrKind) -> (r: bool)
    ensures
        r == has_kind(attrs@, kind),
{
    let mut i: usize = 0;
    while i < attrs.len()
        invariant
            i <= attrs@.len(),
            forall|k: int| 0 <= k < i ==> (#[trigger] attrs@[k]).kind != kind,
        decreases attrs@.len() - i,
    {
        let same = match (attrs[i].kind, kind) {
            (AttrKind::NSize, AttrKind::NSize) => true,
            (AttrKind::ElementRange, AttrKind::ElementRange) => true,
            (AttrKind::Other, AttrKind::Other) => true,
            _ => false,
        };
        if same {
            return true;
        }
        i = i + 1;
    }
    false
}

/// The test-data generator of an input struct, from its fields' attributes.
pub fn data_generation(fields: &Vec<InputField>) -> (r: TestDataPlan)
    requires
        fields_wf(fields@),
    ensures
        (r.n_min, r.n_max, r.setters@) == plan_upto(fields@, fields@.len() as int),
{
    let mut min_n_range: i64 = DEFAULT_N_MIN;
    let mut max_n_range: i64 = DEFAULT_N_MAX;
    let mut field_setters: Vec<FieldSetter> = Vec::new();
    let mut k: usize = 0;
    while k < fields.len()
        invariant
            k <= fields@.len(),
            fields_wf(fields@),
            (min_n_range, max_n_range, field_setters@) == plan_upto(fields@, k as int),
        decreases fields@.len() - k,
    {
        let field = &fields[k];
        let ghost attrs = field.attrs@;
        assert(attrs_wf(attrs) && (has_kind(attrs, AttrKind::NSize) ==> attribute_range(attrs, AttrKind::NSize) is Some)
            && (has_kind(attrs, AttrKind::ElementRange) ==> attribute_range(attrs, AttrKind::ElementRange) is Some)) by {
            assert(fields_wf(fields@));
            assert(fields@[k as int] == *field);
        }
        let is_vector = field.is_vector;
        let is_n_attr = has_attr(&field.attrs, AttrKind::NSize);
        let has_range_attr = has_attr(&field.attrs, AttrKind::ElementRange);
        if is_n_attr {
            if let Some(vals) = get_attribute_range(field, AttrKind::NSize) {
                min_n_range = vals[0];
                max_n_range = vals[1];
            }
        }
        if has_range_attr {
            if let Some(vals) = get_attribute_range(field, AttrKind::ElementRange) {
                let min = vals[0];
                let max = vals[1];
                if is_vector {
                    if is_n_attr {
                        field_setters.push(FieldSetter::SizedVector { field: k, min, max });
                    }
                } else {
                    field_setters.push(FieldSetter::Scalar { field: k, min, max });
                }
            }
        }
        k = k + 1;
    }
    TestDataPlan { n_min: min_n_range, n_max: max_n_range, setters: field_setters }
}

/// The input sizes from `start` to `end` by `step`.
pub open spec fn size_schedule(start: int, end: int, step: int) -> Seq<int>
    decreases end - start + step,
{
    if start > end || step <= 0 {
        Seq::empty()
    } else {
        seq![start] + size_schedule(start + step, end, step)
    }
}

/// One step of the schedule.
pub proof fn lemma_schedule_step(start: int, end: int, step: int)
    requires
        start <= end,
        step > 0,
    ensures
        size_schedule(start, end, step) == seq![start] + size_schedule(start + step, end, step),
{
}

/// The sizes run from `start` by `step`: the `k`-th is `start + k * step`, each is at
/// most `end`, and one more step would pass `end`.
pub proof fn lemma_size_schedule_steps(start: int, end: int, step: int)
    requires
        step > 0,
    ensures
        forall|k: int|
            0 <= k < size_schedule(start, end, step).len() ==> #[trigger] size_schedule(start, end, step)[k]
                == start + k * step && size_schedule(start, end, step)[k] <= end,
        start + size_schedule(start, end, step).len() * step > end,
    decreases end - start + step,
{
    let sched = size_schedule(start, end, step);
    if start <= end {
        lemma_size_schedule_steps(start + step, end, step);
        let rest = size_schedule(start + step, end, step);
        assert forall|k: int| 0 <= k < sched.len() implies #[trigger] sched[k] == start + k * step && sched[k]
            <= end by {
            if k > 0 {
                assert(sched[k] == rest[k - 1]);
                assert(start + step + (k - 1) * step == start + k * step) by (nonlinear_arith);
            }
        }
        assert(start + step + rest.len() * step == start + (rest.len() + 1) * step) by (nonlinear_arith);
    }
}

/// The generated value of one field.
#[derive(Debug, PartialEq, Eq)]
pub enum FieldValue {
    Vector(Vec<i64>),
    Scalar(i64),
}

/// The range of sizes that a request stands for: all three zero asks for the plan's
/// default sizes, one by one.
pub open spec fn plan_range(n_start: i64, n_end: i64, step_by: i64, n_min: i64, n_max: i64) -> (int, int, int) {
    if n_start == 0 && n_end == 0 && step_by == 0 {
        (n_min as int, n_max as int, 1)
    } else {
        (n_start as int, n_end as int, step_by as int)
    }
}

/// A setter can fill its field for an input of size `n` without a panic: a vector
/// needs a size that is a valid length and, when not empty, a non-empty range; a
/// single value needs a non-empty range.
pub open spec fn setter_fits(setter: FieldSetter, n: int) -> bool {
    match setter {
        FieldSetter::SizedVector { min, max, .. } => 0 <= n <= usize::MAX && (n > 0 ==> min <= max),
        FieldSetter::Scalar { min, max, .. } => min <= max,
    }
}

/// `v` is what the setter gives for an input of size `n`: a vector of `n` values in
/// its range, or one value in its range.
pub open spec fn value_fits(setter: FieldSetter, v: FieldValue, n: int) -> bool {
    match setter {
        FieldSetter::SizedVector { min, max, .. } => match v {
            FieldValue::Vector(xs) => {
                &&& xs.len() == n
                &&& forall|m: int| 0 <= m < n ==> min <= #[trigger] xs@[m] <= max
            },
            FieldValue::Scalar(_) => false,
        },
        FieldSetter::Scalar { min, max, .. } => match v {
            FieldValue::Scalar(x) => min <= x <= max,
            FieldValue::Vector(_) => false,
        },
    }
}

/// `input` holds, in setter order, a value for each setter at size `n`.
pub open spec fn input_fits(setters: Seq<FieldSetter>, input: Seq<FieldValue>, n: int) -> bool {
    &&& input.len() == setters.len()
    &&& forall|j: int| 0 <= j < setters.len() ==> value_fits(setters[j], #[trigger] input[j], n)
}

impl TestDataPlan {
    /// The input sizes for a request.
    pub open spec fn sizes(&self, n_start: i64, n_end: i64, step_by: i64) -> Seq<int> {
        let (s, e, st) = plan_range(n_start, n_end, step_by, self.n_min, self.n_max);
        size_schedule(s, e, st)
    }

    /// The request terminates without a panic: a non-empty range has a positive step,
    /// each size plus the step stays within `i64`, and every setter can fill its
    /// field at every size.
    pub open spec fn can_generate(&self, n_start: i64, n_end: i64, step_by: i64) -> bool {
        let (s, e, st) = plan_range(n_start, n_end, step_by, self.n_min, self.n_max);
        let sizes = size_schedule(s, e, st);
        &&& s <= e ==> st > 0
        &&& forall|k: int| 0 <= k < sizes.len() ==> #[trigger] sizes[k] + st <= i64::MAX
        &&& forall|k: int, j: int|
            0 <= k < sizes.len() && 0 <= j < self.setters@.len() ==> setter_fits(
                #[trigger] self.setters@[j],
                #[trigger] sizes[k],
            )
    }

    /// Random inputs, one for each size from `n_start` to `n_end` by `step_by` (the
    /// plan's default sizes by 1 when all three are zero); each holds a value for
    /// every setter.
    pub fn generate(&self, n_start: i64, n_end: i64, step_by: i64) -> (r: Vec<Vec<FieldValue>>)
        requires
            self.can_generate(n_start, n_end, step_by),
        ensures
            r.len() == self.sizes(n_start, n_end, step_by).len(),
            forall|k: int|
                0 <= k < r.len() ==> input_fits(
                    self.setters@,
                    (#[trigger] r@[k])@,
                    self.sizes(n_start, n_end, step_by)[k],
                ),
    {
        let ghost sizes = self.sizes(n_start, n_end, step_by);
        let ghost (s, e, st) = plan_range(n_start, n_end, step_by, self.n_min, self.n_max);
        let ghost request = (n_start, n_end, step_by);
        let mut n_start = n_start;
        let mut n_end = n_end;
        let mut step_by = step_by;
        if n_start == 0 && n_end == 0 && step_by == 0 {
            n_start = self.n_min;
            n_end = self.n_max;
            step_by = 1;
        }
        let mut inputs: Vec<Vec<FieldValue>> = Vec::new();
        let mut n_size = n_start;
        let ghost mut done: Seq<int> = Seq::empty();
        assert(sizes =~= done + size_schedule(n_size as int, e, st));
        while n_size <= n_end
            invariant
                s == n_start,
                e == n_end,
                st == step_by,
                sizes == size_schedule(s, e, st),
                self.can_generate(request.0, request.1, request.2),
                (s, e, st) == plan_range(request.0, request.1, request.2, self.n_min, self.n_max),
                sizes == self.sizes(request.0, request.1, request.2),
                s <= n_size,
                sizes == done + size_schedule(n_size as int, e, st),
                done.len() == inputs.len(),
                forall|k: int| 0 <= k < inputs.len() ==> input_fits(self.setters@, (#[trigger] inputs@[k])@, done[k]),
            decreases n_end - n_size + step_by,
        {
            proof {
                assert(s <= e);
                assert(st > 0);
                lemma_schedule_step(n_size as int, e, st);
                assert(size_schedule(n_size as int, e, st).len() > 0);
                assert(sizes[done.len() as int] == n_size);
            }
            let mut input: Vec<FieldValue> = Vec::new();
            let mut j: usize = 0;
            while j < self.setters.len()
                invariant
                    j <= self.setters@.len(),
                    input@.len() == j,
                    forall|q: int| 0 <= q < j ==> value_fits(self.setters@[q], #[trigger] input@[q], n_size as int),
                    forall|q: int| 0 <= q < self.setters@.len() ==> setter_fits(#[trigger] self.setters@[q], n_size as int),
                decreases self.setters@.len() - j,
            {
                let value = match self.setters[j] {
                    FieldSetter::SizedVector { min, max, .. } => FieldValue::Vector(
                        new_numeric_vector_with_size_and_range(n_size as usize, min, max),
                    ),
                    FieldSetter::Scalar { min, max, .. } => FieldValue::Scalar(random_numeric(min, max)),
                };
                input.push(value);
                j = j + 1;
            }
            inputs.push(input);
            proof {
                assert(done.push(n_size as int) + size_schedule(n_size + st, e, st)
                    =~= done + size_schedule(n_size as int, e, st));
                done = done.push(n_size as int);
            }
            n_size = n_size + step_by;
        }
        assert(sizes =~= done);
        inputs
    }
}

/// A non-empty range from `start` to `end` by `step` holds `(end - start) / step + 1`
/// sizes; an empty one holds none.
pub proof fn lemma_size_schedule_len(start: int, end: int, step: int)
    requires
        step > 0,
    ensures
        size_schedule(start, end, step).len() == if start <= end {
            (end - start) / step + 1
        } else {
            0
        },
{
    lemma_size_schedule_steps(start, end, step);
    let len = size_schedule(start, end, step).len() as int;
    if start <= end {
        lemma_schedule_step(start, end, step);
        let last = size_schedule(start, end, step)[len - 1];
        assert(last == start + (len - 1) * step);
        assert(last <= end);
        let d = end - start;
        let q = d / step;
        vstd::arithmetic::div_mod::lemma_fundamental_div_mod(d, step);
        assert(0 <= d % step < step) by {
            vstd::arithmetic::div_mod::lemma_mod_bound(d, step);
        }
        assert(q == len - 1) by (nonlinear_arith)
            requires
                d == step * q + d % step,
                0 <= d % step < step,
                (len - 1) * step <= d,
                d < len * step,
                step > 0,
        ;
    }
}

impl TestDataPlan {
    /// A request of all zeros stands for the plan's default sizes, one by one.
    pub proof fn lemma_default_request(&self)
        ensures
            self.sizes(0, 0, 0) == self.sizes(self.n_min, self.n_max, 1),
    {
    }
}

} // verus!

use algoprofile::algo_input::{
    data_generation, get_attribute_range, AttrArg, AttrKind, FieldAttribute, FieldSetter, FieldValue,
    InputField, TestDataPlan,
};
use algoprofile::two_sum::RegularArgs;

fn attr(kind: AttrKind, args: Option<Vec<AttrArg>>) -> FieldAttribute {
    FieldAttribute { kind, args }
}

#[test]
fn attribute_range_reads_literals_and_negations() {
    let field = InputField {
        is_vector: true,
        attrs: vec![
            attr(AttrKind::Other, None),
            attr(AttrKind::ElementRange, Some(vec![AttrArg::Neg(1000), AttrArg::Other, AttrArg::Int(1000)])),
            attr(AttrKind::ElementRange, Some(vec![AttrArg::Int(1), AttrArg::Int(2)])),
        ],
    };
    assert_eq!(get_attribute_range(&field, AttrKind::ElementRange), Some(vec![-1000, 1000]));
}

#[test]
fn regular_args_generator() {
    let plan = data_generation(&RegularArgs::input_fields());
    assert_eq!(plan.n_min, 0);
    assert_eq!(plan.n_max, 100);
    assert_eq!(
        plan.setters,
        vec![
            FieldSetter::SizedVector { field: 0, min: -1000, max: 1000 },
            FieldSetter::Scalar { field: 1, min: 0, max: 100 },
        ]
    );
}

#[test]
fn generator_without_attributes_uses_defaults() {
    let fields = vec![
        InputField { is_vector: false, attrs: vec![] },
        InputField { is_vector: true, attrs: vec![attr(AttrKind::Other, None)] },
    ];
    let plan = data_generation(&fields);
    assert_eq!((plan.n_min, plan.n_max), (0, 100));
    assert!(plan.setters.is_empty());
}

#[test]
fn vector_without_size_gets_no_setter() {
    let fields = vec![
        InputField {
            is_vector: true,
            attrs: vec![attr(AttrKind::ElementRange, Some(vec![AttrArg::Int(0), AttrArg::Int(9)]))],
        },
        InputField {
            is_vector: false,
            attrs: vec![
                attr(AttrKind::NSize, Some(vec![AttrArg::Int(5), AttrArg::Int(50)])),
                attr(AttrKind::ElementRange, Some(vec![AttrArg::Neg(3), AttrArg::Neg(1)])),
            ],
        },
    ];
    let plan = data_generation(&fields);
    assert_eq!((plan.n_min, plan.n_max), (5, 50));
    assert_eq!(plan.setters, vec![FieldSetter::Scalar { field: 1, min: -3, max: -1 }]);
}

#[test]
fn generated_struct_uses_size_attribute_as_default() {
    let fields = vec![
        InputField {
            is_vector: true,
            attrs: vec![
                attr(AttrKind::NSize, Some(vec![AttrArg::Int(1), AttrArg::Int(3)])),
                attr(AttrKind::ElementRange, Some(vec![AttrArg::Int(7), AttrArg::Int(7)])),
            ],
        },
        InputField {
            is_vector: false,
            attrs: vec![attr(AttrKind::ElementRange, Some(vec![AttrArg::Int(2), AttrArg::Int(2)]))],
        },
    ];
    let plan = data_generation(&fields);
    let inputs = plan.generate(0, 0, 0);
    assert_eq!(
        inputs,
        vec![
            vec![FieldValue::Vector(vec![7]), FieldValue::Scalar(2)],
            vec![FieldValue::Vector(vec![7, 7]), FieldValue::Scalar(2)],
            vec![FieldValue::Vector(vec![7, 7, 7]), FieldValue::Scalar(2)],
        ]
    );
}

#[test]
fn generate_counts_and_sizes() {
    let plan = TestDataPlan {
        n_min: 0,
        n_max: 100,
        setters: vec![
            FieldSetter::SizedVector { field: 0, min: -5, max: 5 },
            FieldSetter::Scalar { field: 1, min: 10, max: 20 },
        ],
    };
    let inputs = plan.generate(3, 17, 4);
    assert_eq!(inputs.len(), 4);
    for (k, input) in inputs.iter().enumerate() {
        match (&input[0], &input[1]) {
            (FieldValue::Vector(xs), FieldValue::Scalar(t)) => {
                assert_eq!(xs.len(), 3 + 4 * k);
                assert!(xs.iter().all(|x| (-5..=5).contains(x)));
                assert!((10..=20).contains(t));
            }
            _ => panic!("values follow the setters"),
        }
    }
    assert_eq!(plan.generate(0, 0, 0).len(), 101);
    assert!(plan.generate(9, 2, 1).is_empty());
}

#[test]
fn generate_without_vectors_allows_negative_sizes() {
    let plan = TestDataPlan {
        n_min: 0,
        n_max: 100,
        setters: vec![FieldSetter::Scalar { field: 0, min: 4, max: 4 }],
    };
    assert_eq!(
        plan.generate(-2, 0, 1),
        vec![vec![FieldValue::Scalar(4)], vec![FieldValue::Scalar(4)], vec![FieldValue::Scalar(4)]]
    );
}

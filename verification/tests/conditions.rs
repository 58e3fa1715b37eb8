use deployer::actions::{Comparison, Condition, WriteData};
use deployer::comparison::compare_values;
use deployer::conditions::ConditionStep;
use deployer::data::FileDataResolver;
use deployer::data_indexer::DataIndexer;
use deployer::errors::DeployerError;
use deployer::execution::write::{WriteExecutor, WriteStep};
use deployer::indexer::AbiParam;
use deployer::types::TypedValue;
use deployer::variables::VariableValue;

fn word(n: u64) -> Vec<u8> {
    let mut bytes = vec![0u8; 24];
    bytes.extend_from_slice(&n.to_be_bytes());
    bytes
}

fn uint(n: u64) -> TypedValue {
    TypedValue::Uint(word(n), 256)
}

fn signed(n: i64) -> TypedValue {
    let mut bytes = if n < 0 { vec![0xffu8; 24] } else { vec![0u8; 24] };
    bytes.extend_from_slice(&n.to_be_bytes());
    TypedValue::Int(bytes, 256)
}

fn literal(text: &str) -> VariableValue {
    VariableValue::Value(text.to_string())
}

fn resolver_with_output(path: &str, value: TypedValue) -> DataIndexer {
    let mut indexer = DataIndexer::new(vec![], vec![], FileDataResolver::new("data"));
    indexer
        .save_output_data(
            path.to_string(),
            vec![AbiParam { name: "".to_string(), ty: "uint256".to_string(), components: vec![] }],
            vec![value],
        )
        .unwrap();
    indexer
}

#[test]
fn unsigned_integers_compare_by_their_number() {
    assert_eq!(compare_values(&uint(1), &uint(2)), Some(-1));
    assert_eq!(compare_values(&uint(2), &uint(2)), Some(0));
    assert_eq!(compare_values(&uint(256), &uint(255)), Some(1));
    assert_eq!(compare_values(&TypedValue::Uint(vec![0xff; 32], 256), &uint(u64::MAX)), Some(1));
}

#[test]
fn signed_integers_compare_by_their_number() {
    assert_eq!(compare_values(&signed(-1), &signed(1)), Some(-1));
    assert_eq!(compare_values(&signed(1), &signed(-1)), Some(1));
    assert_eq!(compare_values(&signed(-2), &signed(-1)), Some(-1));
    assert_eq!(compare_values(&signed(-1), &signed(-1)), Some(0));
    assert_eq!(compare_values(&signed(5), &signed(3)), Some(1));
    assert_eq!(compare_values(&signed(i64::MIN), &signed(i64::MAX)), Some(-1));
}

#[test]
fn addresses_and_booleans_compare() {
    let low = TypedValue::Address(vec![0x01; 20]);
    let high = TypedValue::Address(vec![0x02; 20]);
    assert_eq!(compare_values(&low, &high), Some(-1));
    assert_eq!(compare_values(&high, &low), Some(1));
    assert_eq!(compare_values(&TypedValue::Bool(false), &TypedValue::Bool(true)), Some(-1));
    assert_eq!(compare_values(&TypedValue::Bool(true), &TypedValue::Bool(true)), Some(0));
    assert_eq!(compare_values(&TypedValue::Bool(true), &TypedValue::Bool(false)), Some(1));
}

#[test]
fn values_of_two_kinds_do_not_compare() {
    assert_eq!(compare_values(&uint(1), &signed(1)), None);
    assert_eq!(compare_values(&uint(1), &TypedValue::Bool(true)), None);
    assert_eq!(
        compare_values(&TypedValue::String("a".to_string()), &TypedValue::String("a".to_string())),
        None
    );
    assert_eq!(compare_values(&TypedValue::Uint(vec![1], 8), &uint(1)), None);
}

#[test]
fn each_comparison_holds_where_it_should() {
    let resolver = DataIndexer::new(vec![], vec![], FileDataResolver::new("data"));
    let cases: Vec<(Comparison, [bool; 3])> = vec![
        (Comparison::Lt(literal("5")), [true, false, false]),
        (Comparison::Lte(literal("5")), [true, true, false]),
        (Comparison::Gt(literal("5")), [false, false, true]),
        (Comparison::Gte(literal("5")), [false, true, true]),
        (Comparison::Eq(literal("5")), [false, true, false]),
        (Comparison::Ne(literal("5")), [true, false, true]),
    ];
    for (comparison, expected) in cases {
        assert_eq!(comparison.evaluate(&uint(4), &resolver).unwrap(), expected[0]);
        assert_eq!(comparison.evaluate(&uint(5), &resolver).unwrap(), expected[1]);
        assert_eq!(comparison.evaluate(&uint(6), &resolver).unwrap(), expected[2]);
    }
}

#[test]
fn the_target_is_read_as_the_type_of_the_current_value() {
    let resolver = DataIndexer::new(vec![], vec![], FileDataResolver::new("data"));
    let comparison = Comparison::Eq(literal("true"));
    assert!(comparison.evaluate(&TypedValue::Bool(true), &resolver).unwrap());
    assert!(matches!(
        comparison.evaluate(&uint(1), &resolver),
        Err(DeployerError::TypeConversion { .. })
    ));
    match comparison.evaluate(&TypedValue::Array(vec![]), &resolver) {
        Err(DeployerError::Config(message)) => assert_eq!(message, "Cannot determine value type"),
        other => panic!("expected a configuration error, got {:?}", other),
    }
    let text = Comparison::Eq(literal("a"));
    match text.evaluate(&TypedValue::String("a".to_string()), &resolver) {
        Err(DeployerError::Config(message)) => {
            assert_eq!(message, "Cannot compare values of different types")
        }
        other => panic!("expected a configuration error, got {:?}", other),
    }
}

#[test]
fn an_output_comparison_is_decided_at_once() {
    let resolver = resolver_with_output("q", uint(42));
    let holds = Condition::OutputComparison {
        output_ref: "q".to_string(),
        comparison: Comparison::Gt(literal("41")),
    };
    assert_eq!(holds.evaluate(&resolver).unwrap(), ConditionStep::Decided(true));
    let fails = Condition::OutputComparison {
        output_ref: "q".to_string(),
        comparison: Comparison::Lt(literal("41")),
    };
    assert_eq!(fails.evaluate(&resolver).unwrap(), ConditionStep::Decided(false));
    let missing = Condition::OutputComparison {
        output_ref: "nothing".to_string(),
        comparison: Comparison::Lt(literal("41")),
    };
    assert!(matches!(missing.evaluate(&resolver), Err(DeployerError::OutputNotFound(_))));
}

#[test]
fn a_contract_call_comparison_asks_for_the_call() {
    let resolver = resolver_with_output("q", uint(42));
    let condition = Condition::ContractCall {
        address: literal("0x00000000000000000000000000000000000000cc"),
        abi_item: "function total() view returns (uint256)".to_string(),
        args: vec![],
        comparison: Comparison::Gte(VariableValue::Output("q".to_string())),
    };
    let plan = match condition.evaluate(&resolver).unwrap() {
        ConditionStep::Call(plan) => plan,
        other => panic!("expected a call, got {:?}", other),
    };
    assert_eq!(plan.input, vec![0x2d, 0xdb, 0xd1, 0x3a]);
    assert!(condition.on_return(&plan, &word(42), &resolver).unwrap());
    assert!(!condition.on_return(&plan, &word(41), &resolver).unwrap());
    assert!(matches!(
        condition.on_return(&plan, &vec![1, 2], &resolver),
        Err(DeployerError::Execution(_))
    ));
}

#[test]
fn a_write_whose_condition_fails_is_skipped() {
    let resolver = resolver_with_output("q", uint(42));
    let mut data = WriteData {
        address: literal("0x00000000000000000000000000000000000000cc"),
        abi_item: "function poke()".to_string(),
        args: vec![],
        value: literal("0"),
        condition: Some(Condition::OutputComparison {
            output_ref: "q".to_string(),
            comparison: Comparison::Eq(literal("1")),
        }),
    };
    let executor = WriteExecutor::new();
    assert_eq!(executor.write(&data, &resolver).unwrap(), WriteStep::Skip);
    data.condition = Some(Condition::OutputComparison {
        output_ref: "q".to_string(),
        comparison: Comparison::Eq(literal("42")),
    });
    assert!(matches!(executor.write(&data, &resolver).unwrap(), WriteStep::Submit(_)));
    data.condition = Some(Condition::ContractCall {
        address: literal("0x00000000000000000000000000000000000000cc"),
        abi_item: "function total() view returns (uint256)".to_string(),
        args: vec![],
        comparison: Comparison::Ne(literal("0")),
    });
    let plan = match executor.write(&data, &resolver).unwrap() {
        WriteStep::Evaluate(plan) => plan,
        other => panic!("expected a call, got {:?}", other),
    };
    assert_eq!(
        executor.on_condition_return(&data, &plan, &word(0), &resolver).unwrap(),
        WriteStep::Skip
    );
    assert!(matches!(
        executor.on_condition_return(&data, &plan, &word(1), &resolver).unwrap(),
        WriteStep::Submit(_)
    ));
}

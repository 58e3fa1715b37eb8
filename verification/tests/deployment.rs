use alloy::primitives::{Address, B256};
use deployer::abi::AbiConstructor;
use deployer::actions::{DeploymentData, ReadData, WriteData};
use deployer::data::FileDataResolver;
use deployer::data_indexer::DataIndexer;
use deployer::errors::DeployerError;
use deployer::execution::arguments::{expect_address, expect_uint, expect_word, resolve_bytecode};
use deployer::execution::deploy::{
    append_bytes, create2_deployer, generate_initcode, same_bytes, DeploymentExecutor,
    DeploymentPlan, DeploymentStep,
};
use deployer::execution::read::ReadExecutor;
use deployer::execution::write::{WriteExecutor, WriteStep};
use deployer::hexcode::encode_hex;
use deployer::indexer::AbiParam;
use deployer::types::TypedValue;
use deployer::variables::{Variable, VariableValue};

const DEPLOYER: &str = "0x4e59b44847b379578588920ca78fbf26c0b4956c";
const ZERO_SALT: &str = "0x0000000000000000000000000000000000000000000000000000000000000000";

fn word(n: u64) -> Vec<u8> {
    let mut bytes = vec![0u8; 24];
    bytes.extend_from_slice(&n.to_be_bytes());
    bytes
}

fn literal(text: &str) -> VariableValue {
    VariableValue::Value(text.to_string())
}

fn resolver_with(variables: Vec<(&str, &str, &str)>) -> DataIndexer {
    DataIndexer::new(
        vec![],
        variables
            .into_iter()
            .map(|(name, ty, value)| {
                (name.to_string(), Variable { ty: ty.to_string(), value: value.to_string() })
            })
            .collect(),
        FileDataResolver::new("data"),
    )
}

fn reference_address(salt: [u8; 32], initcode: &[u8]) -> Vec<u8> {
    let deployer: Address = DEPLOYER.parse().unwrap();
    deployer.create2_from_code(B256::from(salt), initcode).to_vec()
}

fn deployment(address: &str, bytecode: &str, signature: &str, args: Vec<VariableValue>) -> DeploymentData {
    DeploymentData {
        address: literal(address),
        constructor_args: args,
        salt: literal(ZERO_SALT),
        constructor_abi_item: signature.to_string(),
        bytecode: literal(bytecode),
    }
}

#[test]
fn the_deployment_proxy_has_its_known_address() {
    assert_eq!(encode_hex(&create2_deployer()), DEPLOYER);
}

#[test]
fn create2_address_of_the_first_known_example() {
    let executor = DeploymentExecutor::new();
    let address = executor.calculate_create2_address(&vec![0u8; 20], &vec![0u8; 32], &vec![0x00]);
    assert_eq!(encode_hex(&address), "0x4d1a2e2bb4f88f0250f26ffff098b0b30b26bf38");
}

#[test]
fn create2_address_of_a_known_example_with_salt_and_code() {
    let executor = DeploymentExecutor::new();
    let mut deployer = vec![0u8; 16];
    deployer.extend_from_slice(&[0xde, 0xad, 0xbe, 0xef]);
    let mut salt = vec![0u8; 28];
    salt.extend_from_slice(&[0xca, 0xfe, 0xba, 0xbe]);
    let address = executor.calculate_create2_address(&deployer, &salt, &vec![0xde, 0xad, 0xbe, 0xef]);
    assert_eq!(encode_hex(&address), "0x60f3f640a8508fc6a86d45df051962668e1e8ac7");
}

#[test]
fn create2_address_for_the_deployment_proxy() {
    let executor = DeploymentExecutor::new();
    let address = executor.calculate_create2_address(&create2_deployer(), &vec![0u8; 32], &vec![0x00]);
    assert_eq!(address, reference_address([0u8; 32], &[0x00]));
    assert_eq!(address.len(), 20);
    let other = executor.calculate_create2_address(&create2_deployer(), &vec![1u8; 32], &vec![0x00]);
    assert_eq!(other, reference_address([1u8; 32], &[0x00]));
    assert_ne!(address, other);
}

#[test]
fn the_deployment_transaction_goes_to_the_proxy_with_salt_and_initcode() {
    let executor = DeploymentExecutor::new();
    let transaction =
        executor.build_create2_transaction(create2_deployer(), &vec![7u8; 32], &vec![1, 2, 3]);
    assert_eq!(transaction.to, create2_deployer());
    let mut expected = vec![7u8; 32];
    expected.extend_from_slice(&[1, 2, 3]);
    assert_eq!(transaction.input, expected);
    assert_eq!(transaction.value, None);
}

#[test]
fn a_deployment_lands_at_the_declared_address() {
    let owner = "0x00000000000000000000000000000000000000aa";
    let mut initcode = vec![0x60, 0x80];
    initcode.extend_from_slice(&[0u8; 31]);
    initcode.push(0xaa);
    let expected = reference_address([0u8; 32], &initcode);
    let data = deployment(
        &encode_hex(&expected),
        "0x6080",
        "constructor(address owner)",
        vec![literal(owner)],
    );
    let executor = DeploymentExecutor::new();
    let plan = executor.deploy(&data, &resolver_with(vec![])).unwrap();
    assert_eq!(plan.address, expected);
    assert_eq!(plan.salt, vec![0u8; 32]);
    assert_eq!(plan.initcode, initcode);
    match executor.on_code(&plan, &vec![]) {
        DeploymentStep::Submit(transaction) => {
            assert_eq!(transaction.to, create2_deployer());
            let mut calldata = vec![0u8; 32];
            calldata.extend_from_slice(&initcode);
            assert_eq!(transaction.input, calldata);
            assert_eq!(transaction.value, None);
        }
        other => panic!("expected a transaction, got {:?}", other),
    }
    let (address, hash) = executor.on_receipt(&plan, true, vec![9u8; 32]).unwrap();
    assert_eq!(address, expected);
    assert_eq!(hash, vec![9u8; 32]);
}

#[test]
fn an_address_mismatch_is_refused() {
    let data = deployment(
        "0x0000000000000000000000000000000000000001",
        "0x00",
        "constructor()",
        vec![],
    );
    let computed = reference_address([0u8; 32], &[0x00]);
    match DeploymentExecutor::new().deploy(&data, &resolver_with(vec![])) {
        Err(DeployerError::DeploymentFailed(message)) => assert_eq!(
            message,
            format!(
                "address mismatch: expected 0x0000000000000000000000000000000000000001, computed {}",
                encode_hex(&computed)
            )
        ),
        other => panic!("expected a deployment failure, got {:?}", other),
    }
}

#[test]
fn a_contract_that_is_there_already_is_not_deployed_again() {
    let plan = DeploymentPlan { address: vec![5u8; 20], salt: vec![0u8; 32], initcode: vec![0] };
    match DeploymentExecutor::new().on_code(&plan, &vec![0x60]) {
        DeploymentStep::AlreadyDeployed { address, transaction_hash } => {
            assert_eq!(address, vec![5u8; 20]);
            assert_eq!(transaction_hash, vec![0u8; 32]);
        }
        other => panic!("expected no transaction, got {:?}", other),
    }
}

#[test]
fn a_reverted_deployment_fails() {
    let plan = DeploymentPlan { address: vec![5u8; 20], salt: vec![0u8; 32], initcode: vec![0] };
    match DeploymentExecutor::new().on_receipt(&plan, false, vec![1u8; 32]) {
        Err(DeployerError::DeploymentFailed(message)) => assert_eq!(message, "tx reverted"),
        other => panic!("expected a deployment failure, got {:?}", other),
    }
}

#[test]
fn what_cannot_be_resolved_fails_the_plan() {
    let executor = DeploymentExecutor::new();
    let resolver = resolver_with(vec![("text", "string", "hello"), ("code", "bytes", "0x00")]);
    let good = encode_hex(&reference_address([0u8; 32], &[0x00]));
    let mut data = deployment(&good, "0x00", "constructor()", vec![]);
    data.bytecode = VariableValue::Var("code".to_string());
    assert_eq!(executor.deploy(&data, &resolver).unwrap().initcode, vec![0x00]);
    data.address = VariableValue::Var("missing".to_string());
    assert!(matches!(executor.deploy(&data, &resolver), Err(DeployerError::VariableNotFound(_))));
    data.address = VariableValue::Var("text".to_string());
    match executor.deploy(&data, &resolver) {
        Err(DeployerError::TypeConversion { expected, actual }) => {
            assert_eq!(expected, "address");
            assert_eq!(actual, "string");
        }
        other => panic!("expected a type conversion error, got {:?}", other),
    }
    data.address = literal(&good);
    data.salt = literal("0x01");
    assert!(matches!(executor.deploy(&data, &resolver), Err(DeployerError::TypeConversion { .. })));
    data.salt = literal(ZERO_SALT);
    data.bytecode = literal("0xzz");
    match executor.deploy(&data, &resolver) {
        Err(DeployerError::TypeConversion { expected, actual }) => {
            assert_eq!(expected, "bytes");
            assert_eq!(actual, "0xzz");
        }
        other => panic!("expected a type conversion error, got {:?}", other),
    }
    data.bytecode = literal("0x00");
    data.constructor_abi_item = "nonsense(".to_string();
    assert!(matches!(executor.deploy(&data, &resolver), Err(DeployerError::AbiParsing(_))));
    data.constructor_abi_item = "constructor()".to_string();
    data.constructor_args = vec![literal("1")];
    match executor.deploy(&data, &resolver) {
        Err(DeployerError::Execution(message)) => {
            assert_eq!(message, "arguments do not match the inputs in number")
        }
        other => panic!("expected an execution error, got {:?}", other),
    }
    data.constructor_abi_item = "constructor(uint256 a, uint256 b)".to_string();
    match executor.deploy(&data, &resolver) {
        Err(DeployerError::Execution(message)) => {
            assert_eq!(message, "arguments do not match the inputs in number")
        }
        other => panic!("expected an execution error, got {:?}", other),
    }
    data.constructor_abi_item = "constructor(uint8 a)".to_string();
    data.constructor_args = vec![literal("300")];
    assert!(matches!(executor.deploy(&data, &resolver), Err(DeployerError::TypeConversion { .. })));
}

#[test]
fn bytecode_is_taken_from_bytes_or_hexadecimal_strings() {
    let resolver = resolver_with(vec![
        ("raw", "bytes", "0x0102"),
        ("text", "string", "0x0304"),
        ("flag", "bool", "true"),
    ]);
    assert_eq!(resolve_bytecode(&literal("0a0b"), &resolver).unwrap(), vec![0x0a, 0x0b]);
    assert_eq!(resolve_bytecode(&VariableValue::Var("raw".to_string()), &resolver).unwrap(), vec![1, 2]);
    assert_eq!(resolve_bytecode(&VariableValue::Var("text".to_string()), &resolver).unwrap(), vec![3, 4]);
    match resolve_bytecode(&VariableValue::Var("flag".to_string()), &resolver) {
        Err(DeployerError::TypeConversion { expected, actual }) => {
            assert_eq!(expected, "bytes");
            assert_eq!(actual, "bool");
        }
        other => panic!("expected a type conversion error, got {:?}", other),
    }
}

#[test]
fn slots_expect_their_kind_of_value() {
    assert_eq!(expect_address(Ok(TypedValue::Address(vec![1; 20]))).unwrap(), vec![1; 20]);
    assert!(matches!(
        expect_address(Ok(TypedValue::Bool(true))),
        Err(DeployerError::TypeConversion { .. })
    ));
    assert_eq!(expect_uint(Ok(TypedValue::Uint(word(3), 256))).unwrap(), word(3));
    assert!(matches!(
        expect_uint(Ok(TypedValue::Int(word(3), 256))),
        Err(DeployerError::TypeConversion { .. })
    ));
    assert_eq!(expect_word(Ok(TypedValue::FixedBytes(vec![2; 32], 32))).unwrap(), vec![2; 32]);
    assert!(matches!(
        expect_word(Ok(TypedValue::FixedBytes(vec![2; 4], 4))),
        Err(DeployerError::TypeConversion { .. })
    ));
    assert!(matches!(
        expect_word(Err(DeployerError::OutputNotFound("x".to_string()))),
        Err(DeployerError::OutputNotFound(_))
    ));
}

#[test]
fn initcode_is_bytecode_followed_by_encoded_arguments() {
    let constructor = AbiConstructor::parse("constructor(uint256 a)").unwrap();
    let initcode =
        generate_initcode(Some(&constructor), vec![0x60], &vec![TypedValue::Uint(word(2), 256)]).unwrap();
    let mut expected = vec![0x60];
    expected.extend_from_slice(&word(2));
    assert_eq!(initcode, expected);
    assert_eq!(generate_initcode(None, vec![0x60], &vec![]).unwrap(), vec![0x60]);
    match generate_initcode(Some(&constructor), vec![0x60], &vec![]) {
        Err(DeployerError::Config(message)) => assert_eq!(
            message,
            "Constructor args length (0) doesn't match ABI inputs length (1)"
        ),
        other => panic!("expected a configuration error, got {:?}", other),
    }
    match generate_initcode(None, vec![0x60], &vec![TypedValue::Bool(true)]) {
        Err(DeployerError::Config(message)) => assert_eq!(
            message,
            "Constructor args provided but contract has no constructor"
        ),
        other => panic!("expected a configuration error, got {:?}", other),
    }
}

#[test]
fn bytes_are_compared_and_appended() {
    assert!(same_bytes(&vec![1, 2], &vec![1, 2]));
    assert!(!same_bytes(&vec![1, 2], &vec![1, 3]));
    assert!(!same_bytes(&vec![1, 2], &vec![1]));
    let mut bytes = vec![1];
    append_bytes(&mut bytes, &vec![2, 3]);
    assert_eq!(bytes, vec![1, 2, 3]);
}

#[test]
fn a_read_is_planned_checked_and_decoded() {
    let data = ReadData {
        address: literal("0x00000000000000000000000000000000000000cc"),
        args: vec![literal("0x00000000000000000000000000000000000000dd")],
        abi_item: "function balanceOf(address owner) view returns (uint256 balance)".to_string(),
    };
    let executor = ReadExecutor::new();
    let plan = executor.read(&data, &resolver_with(vec![])).unwrap();
    let mut to = vec![0u8; 19];
    to.push(0xcc);
    assert_eq!(plan.to, to);
    let mut input = vec![0x70, 0xa0, 0x82, 0x31];
    input.extend_from_slice(&[0u8; 31]);
    input.push(0xdd);
    assert_eq!(plan.input, input);
    assert_eq!(
        plan.function.outputs,
        vec![AbiParam { name: "balance".to_string(), ty: "uint256".to_string(), components: vec![] }]
    );
    match executor.on_code(&plan, &vec![]) {
        Err(DeployerError::Execution(message)) => {
            assert_eq!(message, "no contract at 0x00000000000000000000000000000000000000cc")
        }
        other => panic!("expected an execution error, got {:?}", other),
    }
    let call = executor.on_code(&plan, &vec![0x60]).unwrap();
    assert_eq!(call.to, to);
    assert_eq!(call.input, input);
    assert_eq!(call.value, None);
    assert_eq!(
        executor.on_return(&plan, &word(42)).unwrap(),
        vec![TypedValue::Uint(word(42), 256)]
    );
    assert!(matches!(executor.on_return(&plan, &vec![1]), Err(DeployerError::Execution(_))));
}

#[test]
fn a_write_is_planned_and_judged() {
    let data = WriteData {
        address: literal("0x00000000000000000000000000000000000000cc"),
        abi_item: "function setFee(uint256)".to_string(),
        args: vec![VariableValue::Var("fee".to_string())],
        value: literal("3"),
        condition: None,
    };
    let executor = WriteExecutor::new();
    let resolver = resolver_with(vec![("fee", "uint256", "1000")]);
    let transaction = executor.build_transaction(&data, &resolver).unwrap();
    let mut input = vec![0x69, 0xfe, 0x0e, 0x2d];
    input.extend_from_slice(&word(1000));
    assert_eq!(transaction.input, input);
    assert_eq!(transaction.value, Some(word(3)));
    match executor.write(&data, &resolver).unwrap() {
        WriteStep::Submit(same) => assert_eq!(same, transaction),
        other => panic!("expected a transaction, got {:?}", other),
    }
    assert!(executor.on_receipt(true).is_ok());
    match executor.on_receipt(false) {
        Err(DeployerError::TransactionFailed(message)) => assert_eq!(message, "reverted"),
        other => panic!("expected a transaction failure, got {:?}", other),
    }
    let mut bad = data;
    bad.value = literal("-1");
    assert!(matches!(
        executor.build_transaction(&bad, &resolver),
        Err(DeployerError::TypeConversion { .. })
    ));
}

#[test]
fn the_address_is_resolved_before_the_signature_is_parsed() {
    let resolver = resolver_with(vec![]);
    let read = ReadData {
        address: VariableValue::Var("missing".to_string()),
        args: vec![],
        abi_item: "nonsense(".to_string(),
    };
    assert!(matches!(
        ReadExecutor::new().read(&read, &resolver),
        Err(DeployerError::VariableNotFound(_))
    ));
    let write = WriteData {
        address: literal("no address"),
        abi_item: "nonsense(".to_string(),
        args: vec![],
        value: literal("0"),
        condition: None,
    };
    assert!(matches!(
        WriteExecutor::new().build_transaction(&write, &resolver),
        Err(DeployerError::TypeConversion { .. })
    ));
    let good_address = ReadData {
        address: literal("0x00000000000000000000000000000000000000cc"),
        args: vec![],
        abi_item: "nonsense(".to_string(),
    };
    assert!(matches!(
        ReadExecutor::new().read(&good_address, &resolver),
        Err(DeployerError::AbiParsing(_))
    ));
}

#[test]
fn arguments_must_match_the_inputs_in_number() {
    let resolver = resolver_with(vec![]);
    for args in [vec![], vec![literal("1"), literal("2")]] {
        let read = ReadData {
            address: literal("0x00000000000000000000000000000000000000cc"),
            args,
            abi_item: "function f(uint256 a) view returns (uint256)".to_string(),
        };
        match ReadExecutor::new().read(&read, &resolver) {
            Err(DeployerError::Execution(message)) => {
                assert_eq!(message, "arguments do not match the inputs in number")
            }
            other => panic!("expected an execution error, got {:?}", other),
        }
    }
}

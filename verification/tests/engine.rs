use alloy::primitives::{Address, B256};
use deployer::actions::{Action, ActionData, DeploymentData, ReadData, WriteData};
use deployer::config::Config;
use deployer::data::FileDataResolver;
use deployer::errors::DeployerError;
use deployer::execution::deploy::create2_deployer;
use deployer::executor::{begin, EngineEvent, EnginePhase, EngineRequest, Executor, Started};
use deployer::hexcode::encode_hex;
use deployer::types::TypedValue;
use deployer::variables::{Variable, VariableResolver, VariableValue};

const ZERO_SALT: &str = "0x0000000000000000000000000000000000000000000000000000000000000000";
const TARGET: &str = "0x00000000000000000000000000000000000000cc";

fn word(n: u64) -> Vec<u8> {
    let mut bytes = vec![0u8; 24];
    bytes.extend_from_slice(&n.to_be_bytes());
    bytes
}

fn literal(text: &str) -> VariableValue {
    VariableValue::Value(text.to_string())
}

fn target() -> Vec<u8> {
    let mut bytes = vec![0u8; 19];
    bytes.push(0xcc);
    bytes
}

fn action(id: &str, depends_on: &[&str], data: ActionData) -> Action {
    Action {
        depends_on: Some(depends_on.iter().map(|d| d.to_string()).collect()),
        id: id.to_string(),
        action_data: data,
    }
}

fn read(signature: &str) -> ActionData {
    ActionData::Read(ReadData { address: literal(TARGET), args: vec![], abi_item: signature.to_string() })
}

fn write(signature: &str, args: Vec<VariableValue>) -> ActionData {
    ActionData::Write(WriteData {
        address: literal(TARGET),
        abi_item: signature.to_string(),
        args,
        value: literal("0"),
        condition: None,
    })
}

fn deploy(address: &str) -> ActionData {
    ActionData::Deploy(DeploymentData {
        address: literal(address),
        constructor_args: vec![],
        salt: literal(ZERO_SALT),
        constructor_abi_item: "constructor()".to_string(),
        bytecode: literal("0x00"),
    })
}

fn create2_of_zero_byte() -> Vec<u8> {
    let deployer = Address::from_slice(&create2_deployer());
    deployer.create2_from_code(B256::ZERO, [0x00u8]).to_vec()
}

fn engine(variables: Vec<(&str, &str, &str)>, actions: Vec<Action>) -> Executor {
    let mut executor = Executor::with_data_dir(FileDataResolver::new("data"));
    let config = Config {
        variables: variables
            .into_iter()
            .map(|(n, t, v)| (n.to_string(), Variable { ty: t.to_string(), value: v.to_string() }))
            .collect(),
        data: vec![],
        actions,
    };
    executor.register_config(config).unwrap();
    executor
}

#[test]
fn an_empty_pipeline_ends_well_and_records_nothing() {
    let mut executor = Executor::new();
    executor.register_config(Config::new()).unwrap();
    assert_eq!(executor.phase, EnginePhase::Configured);
    assert_eq!(executor.execute_actions(), EngineRequest::Done);
    assert_eq!(executor.phase, EnginePhase::Succeeded);
    assert_eq!(executor.failure, None);
    assert!(executor.indexer.get_output("anything").is_err());
    assert!(executor.indexer.get_variable("anything").is_err());
}

#[test]
fn a_run_needs_a_configuration() {
    let mut executor = Executor::new();
    match executor.execute_actions() {
        EngineRequest::Failed(DeployerError::Config(message)) => {
            assert_eq!(message, "Config must be registered before executing actions")
        }
        other => panic!("expected a configuration error, got {:?}", other),
    }
    assert_eq!(executor.phase, EnginePhase::Fresh);
}

#[test]
fn a_second_configuration_is_refused() {
    let mut executor = engine(vec![], vec![]);
    match executor.register_config(Config::new()) {
        Err(DeployerError::Execution(message)) => {
            assert_eq!(message, "a configuration is already registered")
        }
        other => panic!("expected an execution error, got {:?}", other),
    }
}

#[test]
fn variables_are_read_when_the_configuration_is_registered() {
    let mut executor = Executor::new();
    let mut config = Config::new();
    config.variables.push(("fee".to_string(), Variable { ty: "uint256".to_string(), value: "7".to_string() }));
    config.variables.push(("bad".to_string(), Variable { ty: "uint8".to_string(), value: "300".to_string() }));
    match executor.register_config(config) {
        Err(DeployerError::TypeConversion { expected, actual }) => {
            assert_eq!(expected, "uint8");
            assert_eq!(actual, "300");
        }
        other => panic!("expected a type conversion error, got {:?}", other),
    }
    assert_eq!(executor.phase, EnginePhase::Fresh);
    let seeded = engine(vec![("fee", "uint256", "7")], vec![]);
    assert_eq!(
        seeded.indexer.base_indexer().get_variable_value("fee").unwrap(),
        TypedValue::Uint(word(7), 256)
    );
}

#[test]
fn a_cycle_fails_the_run() {
    let mut executor = engine(
        vec![],
        vec![
            action("A", &["B"], read("function x() view returns (uint256)")),
            action("B", &["A"], read("function x() view returns (uint256)")),
        ],
    );
    match executor.execute_actions() {
        EngineRequest::Failed(DeployerError::Config(message)) => assert!(message.contains("cycle")),
        other => panic!("expected a configuration error, got {:?}", other),
    }
    assert_eq!(executor.phase, EnginePhase::Failed);
}

#[test]
fn a_read_feeds_a_later_write() {
    let mut executor = engine(
        vec![],
        vec![
            action(
                "w",
                &["q"],
                write("function set(uint256 v)", vec![VariableValue::Output("q".to_string())]),
            ),
            action("q", &[], read("function get() view returns (uint256)")),
        ],
    );
    assert_eq!(executor.execute_actions(), EngineRequest::GetCode(target()));
    assert_eq!(executor.phase, EnginePhase::Executing);
    let call = match executor.resume(EngineEvent::Code(vec![0x60])) {
        EngineRequest::Call(call) => call,
        other => panic!("expected a call, got {:?}", other),
    };
    assert_eq!(call.to, target());
    assert_eq!(call.input, vec![0x6d, 0x4c, 0xe6, 0x3c]);
    let send = match executor.resume(EngineEvent::Returned(word(42))) {
        EngineRequest::Send(send) => send,
        other => panic!("expected a transaction, got {:?}", other),
    };
    assert_eq!(executor.indexer.get_output("q").unwrap(), TypedValue::Uint(word(42), 256));
    let mut input = vec![0x60, 0xfe, 0x47, 0xb1];
    input.extend_from_slice(&word(42));
    assert_eq!(send.input, input);
    assert_eq!(send.to, target());
    assert_eq!(send.value, Some(word(0)));
    assert_eq!(
        executor.resume(EngineEvent::Receipt { status: true, transaction_hash: vec![1u8; 32] }),
        EngineRequest::Done
    );
    assert_eq!(executor.phase, EnginePhase::Succeeded);
}

#[test]
fn a_deployment_is_recorded_at_the_identifier_of_its_action() {
    let expected = create2_of_zero_byte();
    let mut executor = engine(
        vec![],
        vec![
            action("token", &[], deploy(&encode_hex(&expected))),
            action(
                "use",
                &["token"],
                ActionData::Read(ReadData {
                    address: VariableValue::Output("token".to_string()),
                    args: vec![],
                    abi_item: "function get() view returns (uint256 value)".to_string(),
                }),
            ),
        ],
    );
    assert_eq!(executor.execute_actions(), EngineRequest::GetCode(expected.clone()));
    let send = match executor.resume(EngineEvent::Code(vec![])) {
        EngineRequest::Send(send) => send,
        other => panic!("expected a transaction, got {:?}", other),
    };
    assert_eq!(send.to, create2_deployer());
    let mut calldata = vec![0u8; 32];
    calldata.push(0x00);
    assert_eq!(send.input, calldata);
    assert_eq!(
        executor.resume(EngineEvent::Receipt { status: true, transaction_hash: vec![2u8; 32] }),
        EngineRequest::GetCode(expected.clone())
    );
    assert_eq!(executor.indexer.get_output("token").unwrap(), TypedValue::Address(expected));
    assert!(matches!(executor.resume(EngineEvent::Code(vec![1])), EngineRequest::Call(_)));
    assert_eq!(executor.resume(EngineEvent::Returned(word(5))), EngineRequest::Done);
    assert_eq!(executor.indexer.get_output("use.value").unwrap(), TypedValue::Uint(word(5), 256));
}

#[test]
fn a_contract_that_is_there_already_sends_no_transaction() {
    let expected = create2_of_zero_byte();
    let mut executor = engine(vec![], vec![action("token", &[], deploy(&encode_hex(&expected)))]);
    assert_eq!(executor.execute_actions(), EngineRequest::GetCode(expected.clone()));
    assert_eq!(executor.resume(EngineEvent::Code(vec![0x60, 0x80])), EngineRequest::Done);
    assert_eq!(executor.indexer.get_output("token").unwrap(), TypedValue::Address(expected));
}

#[test]
fn an_address_mismatch_fails_the_run_before_anything_is_asked() {
    let mut executor = engine(
        vec![],
        vec![action("token", &[], deploy("0x0000000000000000000000000000000000000001"))],
    );
    match executor.execute_actions() {
        EngineRequest::Failed(DeployerError::DeploymentFailed(message)) => assert_eq!(
            message,
            format!(
                "address mismatch: expected 0x0000000000000000000000000000000000000001, computed {}",
                encode_hex(&create2_of_zero_byte())
            )
        ),
        other => panic!("expected a deployment failure, got {:?}", other),
    }
    assert_eq!(executor.phase, EnginePhase::Failed);
}

#[test]
fn a_failure_ends_the_run() {
    let mut executor = engine(
        vec![],
        vec![
            action("first", &[], write("function poke()", vec![])),
            action("second", &["first"], write("function poke()", vec![])),
        ],
    );
    assert!(matches!(executor.execute_actions(), EngineRequest::Send(_)));
    match executor.resume(EngineEvent::Receipt { status: false, transaction_hash: vec![0u8; 32] }) {
        EngineRequest::Failed(DeployerError::TransactionFailed(message)) => {
            assert_eq!(message, "reverted")
        }
        other => panic!("expected a transaction failure, got {:?}", other),
    }
    assert_eq!(executor.phase, EnginePhase::Failed);
    assert_eq!(executor.failure, Some(DeployerError::TransactionFailed("reverted".to_string())));
    match executor.resume(EngineEvent::Code(vec![])) {
        EngineRequest::Failed(DeployerError::Execution(message)) => {
            assert_eq!(message, "unexpected event")
        }
        other => panic!("expected an execution error, got {:?}", other),
    }
}

#[test]
fn a_reverted_deployment_and_a_failing_chain_end_the_run() {
    let expected = create2_of_zero_byte();
    let mut executor = engine(vec![], vec![action("token", &[], deploy(&encode_hex(&expected)))]);
    executor.execute_actions();
    executor.resume(EngineEvent::Code(vec![]));
    match executor.resume(EngineEvent::Receipt { status: false, transaction_hash: vec![0u8; 32] }) {
        EngineRequest::Failed(DeployerError::DeploymentFailed(message)) => {
            assert_eq!(message, "tx reverted")
        }
        other => panic!("expected a deployment failure, got {:?}", other),
    }
    let mut second = engine(vec![], vec![action("token", &[], deploy(&encode_hex(&expected)))]);
    second.execute_actions();
    match second.resume(EngineEvent::Failure("timeout".to_string())) {
        EngineRequest::Failed(DeployerError::Execution(message)) => assert_eq!(message, "timeout"),
        other => panic!("expected an execution error, got {:?}", other),
    }
    let mut third = engine(vec![], vec![action("token", &[], deploy(&encode_hex(&expected)))]);
    third.execute_actions();
    third.resume(EngineEvent::Code(vec![]));
    match third.resume(EngineEvent::Failure("nonce too low".to_string())) {
        EngineRequest::Failed(DeployerError::TransactionFailed(message)) => {
            assert_eq!(message, "nonce too low")
        }
        other => panic!("expected a transaction failure, got {:?}", other),
    }
}

#[test]
fn a_read_of_an_address_without_code_fails() {
    let mut executor =
        engine(vec![], vec![action("q", &[], read("function get() view returns (uint256)"))]);
    executor.execute_actions();
    match executor.resume(EngineEvent::Code(vec![])) {
        EngineRequest::Failed(DeployerError::Execution(message)) => {
            assert_eq!(message, format!("no contract at {}", TARGET))
        }
        other => panic!("expected an execution error, got {:?}", other),
    }
}

#[test]
fn an_event_that_nothing_waits_for_is_refused() {
    let mut executor =
        engine(vec![], vec![action("q", &[], read("function get() view returns (uint256)"))]);
    match executor.resume(EngineEvent::Code(vec![1])) {
        EngineRequest::Failed(DeployerError::Execution(message)) => {
            assert_eq!(message, "unexpected event")
        }
        other => panic!("expected an execution error, got {:?}", other),
    }
    assert_eq!(executor.phase, EnginePhase::Configured);
    executor.execute_actions();
    match executor.resume(EngineEvent::Returned(vec![])) {
        EngineRequest::Failed(DeployerError::Execution(message)) => {
            assert_eq!(message, "unexpected event")
        }
        other => panic!("expected an execution error, got {:?}", other),
    }
    assert_eq!(executor.phase, EnginePhase::Failed);
}

#[test]
fn an_action_starts_with_what_it_asks() {
    let executor = engine(vec![("fee", "uint256", "9")], vec![]);
    let started = begin(
        &action("w", &[], write("function set(uint256 v)", vec![VariableValue::Var("fee".to_string())])),
        &executor.indexer,
    );
    match started {
        Started::Ask(_, EngineRequest::Send(send)) => {
            let mut input = vec![0x60, 0xfe, 0x47, 0xb1];
            input.extend_from_slice(&word(9));
            assert_eq!(send.input, input);
        }
        other => panic!("expected a transaction, got {:?}", other),
    }
    let failed = begin(&action("r", &[], read("nonsense(")), &executor.indexer);
    assert!(matches!(failed, Started::Fail(DeployerError::AbiParsing(_))));
}

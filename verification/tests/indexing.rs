use deployer::abi::AbiFunction;
use deployer::collector::{find_template, OutputCollector};
use deployer::errors::DeployerError;
use deployer::indexer::{collect_outputs, AbiParam, Indexer};
use deployer::types::{SolType, TypedValue};

fn word(n: u64) -> Vec<u8> {
    let mut bytes = vec![0u8; 24];
    bytes.extend_from_slice(&n.to_be_bytes());
    bytes
}

fn uint(n: u64) -> TypedValue {
    TypedValue::Uint(word(n), 256)
}

fn address(last: u8) -> TypedValue {
    let mut bytes = vec![0u8; 19];
    bytes.push(last);
    TypedValue::Address(bytes)
}

fn param(name: &str, ty: &str) -> AbiParam {
    AbiParam { name: name.to_string(), ty: ty.to_string(), components: vec![] }
}

fn paths(index: &Indexer, candidates: &[&str]) -> Vec<String> {
    candidates
        .iter()
        .filter(|p| index.get_output_value(p).is_ok())
        .map(|p| p.to_string())
        .collect()
}

#[test]
fn a_named_output_stands_below_its_action() {
    let mut index = Indexer::new();
    index
        .save_output_data("read_x".to_string(), vec![param("x", "uint256")], vec![uint(7)])
        .unwrap();
    assert_eq!(index.get_output_value("read_x.x").unwrap(), uint(7));
    assert!(index.get_output_value("read_x").is_err());
    assert!(index.get_output_value("x").is_err());
}

#[test]
fn two_outputs_stand_side_by_side() {
    let mut index = Indexer::new();
    index
        .save_output_data(
            "info".to_string(),
            vec![param("a", "address"), param("b", "uint256")],
            vec![address(0xaa), uint(9)],
        )
        .unwrap();
    assert_eq!(index.get_output_value("info.a").unwrap(), address(0xaa));
    assert_eq!(index.get_output_value("info.b").unwrap(), uint(9));
}

#[test]
fn a_fixed_array_is_taken_apart_by_position() {
    let mut index = Indexer::new();
    index
        .save_output_data(
            "nums".to_string(),
            vec![param("nums", "uint256[3]")],
            vec![TypedValue::FixedArray(vec![uint(1), uint(2), uint(3)])],
        )
        .unwrap();
    assert_eq!(index.get_output_value("nums.nums[0]").unwrap(), uint(1));
    assert_eq!(index.get_output_value("nums.nums[1]").unwrap(), uint(2));
    assert_eq!(index.get_output_value("nums.nums[2]").unwrap(), uint(3));
    assert!(index.get_output_value("nums.nums[3]").is_err());
    assert!(index.get_output_value("nums.nums").is_err());
    assert!(index.get_output_value("nums.nums[0].nums").is_err());
}

#[test]
fn a_struct_is_taken_apart_by_field() {
    let outputs = vec![AbiParam {
        name: "s".to_string(),
        ty: "tuple".to_string(),
        components: vec![param("owner", "address"), param("balances", "uint256[]")],
    }];
    let value = TypedValue::Tuple(vec![
        address(0x01),
        TypedValue::Array(vec![uint(10), uint(20)]),
    ]);
    let mut index = Indexer::new();
    index.save_output_data("s".to_string(), outputs, vec![value]).unwrap();
    assert_eq!(index.get_output_value("s.s.owner").unwrap(), address(0x01));
    assert_eq!(index.get_output_value("s.s.balances[0]").unwrap(), uint(10));
    assert_eq!(index.get_output_value("s.s.balances[1]").unwrap(), uint(20));
    assert!(index.get_output_value("s.s.balances[2]").is_err());
    assert!(index.get_output_value("s.s").is_err());
}

#[test]
fn a_parsed_tuple_output_is_taken_apart_without_field_names() {
    let function = AbiFunction::parse("function s() view returns ((address,uint256) s)").unwrap();
    let value = TypedValue::Tuple(vec![address(0x01), uint(5)]);
    let mut index = Indexer::new();
    index.save_output_data("s".to_string(), function.outputs, vec![value]).unwrap();
    assert_eq!(index.get_output_value("s.s").unwrap(), address(0x01));
    assert!(index.get_output_value("s.s.owner").is_err());
}

#[test]
fn an_output_without_name_stands_at_the_action() {
    let mut index = Indexer::new();
    index.save_output_data("q".to_string(), vec![param("", "uint256")], vec![uint(42)]).unwrap();
    assert_eq!(index.get_output_value("q").unwrap(), uint(42));
    assert!(index.get_output_value("q.").is_err());
}

#[test]
fn nested_arrays_get_one_bracket_for_each_level() {
    let mut index = Indexer::new();
    let value = TypedValue::Array(vec![
        TypedValue::Array(vec![uint(1)]),
        TypedValue::Array(vec![uint(2), uint(3)]),
    ]);
    index.save_output_data("m".to_string(), vec![param("grid", "uint256[][]")], vec![value]).unwrap();
    assert_eq!(
        paths(&index, &["m.grid[0][0]", "m.grid[1][0]", "m.grid[1][1]", "m.grid[0][1]", "m.grid[0]"]),
        vec!["m.grid[0][0]", "m.grid[1][0]", "m.grid[1][1]"]
    );
    assert_eq!(index.get_output_value("m.grid[1][1]").unwrap(), uint(3));
}

#[test]
fn position_ten_is_written_with_two_digits() {
    let mut index = Indexer::new();
    let items: Vec<TypedValue> = (0..11).map(uint).collect();
    index.save_output_data("a".to_string(), vec![param("v", "uint256[]")], vec![TypedValue::Array(items)]).unwrap();
    assert_eq!(index.get_output_value("a.v[10]").unwrap(), uint(10));
}

#[test]
fn an_empty_array_adds_nothing() {
    let mut index = Indexer::new();
    index
        .save_output_data("e".to_string(), vec![param("v", "uint256[]")], vec![TypedValue::Array(vec![])])
        .unwrap();
    assert!(index.get_output_value("e.v").is_err());
    assert!(index.get_output_value("e.v[0]").is_err());
}

#[test]
fn a_tuple_without_components_is_one_entry() {
    let mut index = Indexer::new();
    let value = TypedValue::Tuple(vec![uint(1), TypedValue::Bool(true)]);
    index.save_output_data("t".to_string(), vec![param("pair", "tuple")], vec![value]).unwrap();
    assert_eq!(
        index.get_output_value("t.pair").unwrap(),
        TypedValue::Tuple(vec![uint(1), TypedValue::Bool(true)])
    );
}

#[test]
fn outputs_must_match_parameters_in_number() {
    let mut index = Indexer::new();
    match index.save_output_data("x".to_string(), vec![param("a", "uint256")], vec![]) {
        Err(DeployerError::Execution(message)) => assert_eq!(message, "length mismatch"),
        other => panic!("expected an execution error, got {:?}", other),
    }
}

#[test]
fn components_ask_for_a_tuple() {
    let mut index = Indexer::new();
    let with_components = AbiParam {
        name: "s".to_string(),
        ty: "tuple".to_string(),
        components: vec![param("a", "uint256")],
    };
    match index.save_output_data(
        "x".to_string(),
        vec![param("first", "uint256"), with_components],
        vec![uint(1), uint(2)],
    ) {
        Err(DeployerError::Execution(message)) => {
            assert_eq!(message, "Expected tuple for components")
        }
        other => panic!("expected an execution error, got {:?}", other),
    }
    assert!(index.get_output_value("x.first").is_err());
}

#[test]
fn a_path_once_written_is_never_rewritten() {
    let mut index = Indexer::new();
    index.save_output_data("a".to_string(), vec![param("v", "uint256")], vec![uint(1)]).unwrap();
    index.save_output_data("a".to_string(), vec![param("v", "uint256")], vec![uint(2)]).unwrap();
    index.save_output_data("b".to_string(), vec![param("v", "uint256")], vec![uint(3)]).unwrap();
    assert_eq!(index.get_output_value("a.v").unwrap(), uint(1));
    assert_eq!(index.get_output_value("a.v").unwrap(), uint(1));
    assert_eq!(index.get_output_value("b.v").unwrap(), uint(3));
}

#[test]
fn a_missing_output_is_reported_by_its_path() {
    let index = Indexer::new();
    match index.get_output_value("nothing.here") {
        Err(DeployerError::OutputNotFound(path)) => assert_eq!(path, "nothing.here"),
        other => panic!("expected an output-not-found error, got {:?}", other),
    }
}

#[test]
fn variables_are_declared_and_found() {
    let mut index = Indexer::new();
    index.save_variable("fee", "uint256", "1000").unwrap();
    assert_eq!(index.get_variable_value("fee").unwrap(), uint(1000));
    match index.get_variable_value("missing") {
        Err(DeployerError::VariableNotFound(name)) => assert_eq!(name, "missing"),
        other => panic!("expected a variable-not-found error, got {:?}", other),
    }
    assert!(matches!(
        index.save_variable("bad", "uint8", "300"),
        Err(DeployerError::TypeConversion { .. })
    ));
    assert!(index.get_variable_value("bad").is_err());
    assert!(index.get_output_value("fee").is_err());
}

#[test]
fn collected_entries_carry_path_type_and_value() {
    let entries = collect_outputs(
        "info",
        &vec![param("a", "address"), param("b", "uint256")],
        &vec![address(1), uint(2)],
    )
    .unwrap();
    assert_eq!(entries.len(), 2);
    assert_eq!(entries[0].path, "info.a");
    assert_eq!(entries[0].ty.name, "address");
    assert_eq!(entries[0].value, address(1));
    assert_eq!(entries[1].path, "info.b");
    assert_eq!(entries[1].ty.name, "uint256");
}

#[test]
fn a_template_names_a_collected_output() {
    let mut collector = OutputCollector::new();
    collector
        .save_output_data("read_x".to_string(), vec![param("x", "uint256")], vec![uint(7)])
        .unwrap();
    assert_eq!(collector.get_input_value("${read_x.x}", SolType::uint256()).unwrap(), uint(7));
    assert_eq!(
        collector.get_input_value("see ${read_x.x} there", SolType::string()).unwrap(),
        TypedValue::String("see 7 there".to_string())
    );
    assert_eq!(collector.get_input_value("${read_x.x}0", SolType::uint256()).unwrap(), uint(70));
    assert_eq!(collector.get_input_value("12", SolType::uint256()).unwrap(), uint(12));
    match collector.get_input_value("${nothing}", SolType::uint256()) {
        Err(DeployerError::OutputNotFound(path)) => assert_eq!(path, "nothing"),
        other => panic!("expected an output-not-found error, got {:?}", other),
    }
}

#[test]
fn the_first_template_of_a_text_counts() {
    assert_eq!(find_template("${a}${b}"), Some("a".to_string()));
    assert_eq!(find_template("x${a.b[0]}y"), Some("a.b[0]".to_string()));
    assert_eq!(find_template("${}${b}"), Some("b".to_string()));
    assert_eq!(find_template("${${a}"), Some("${a".to_string()));
    assert_eq!(find_template("${a"), None);
    assert_eq!(find_template("$a}"), None);
    assert_eq!(find_template(""), None);
    assert_eq!(find_template("${}"), None);
}

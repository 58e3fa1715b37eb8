use deployer::abi::{
    coerce, coerce_declared, has_long_exponent_text, is_sol_type, keccak256, names_integers_text,
    parse_sol_type, AbiConstructor, AbiFunction,
};
use alloy::dyn_abi::{DynSolValue, JsonAbiExt};
use alloy::json_abi::Function;
use alloy::primitives::U256;
use deployer::errors::DeployerError;
use deployer::hexcode::{decode_hex, encode_hex, strip_hex_prefix};
use deployer::text::{decimal_text, same_text};
use deployer::types::{SolType, TypedValue};

fn word(n: u64) -> Vec<u8> {
    let mut bytes = vec![0u8; 24];
    bytes.extend_from_slice(&n.to_be_bytes());
    bytes
}

fn address(last: u8) -> Vec<u8> {
    let mut bytes = vec![0u8; 19];
    bytes.push(last);
    bytes
}

#[test]
fn coerce_reads_a_decimal_uint256() {
    let value = coerce(&SolType::uint256(), "42").unwrap();
    assert_eq!(value, TypedValue::Uint(word(42), 256));
}

#[test]
fn coerce_reads_an_address() {
    let value = coerce(&SolType::address(), "0x00000000000000000000000000000000000000ff").unwrap();
    assert_eq!(value, TypedValue::Address(address(0xff)));
}

#[test]
fn coerce_reads_booleans() {
    assert_eq!(coerce(&SolType::new("bool"), "true").unwrap(), TypedValue::Bool(true));
    assert_eq!(coerce(&SolType::new("bool"), "false").unwrap(), TypedValue::Bool(false));
}

#[test]
fn coerce_reads_bytes_and_fixed_bytes() {
    assert_eq!(coerce(&SolType::bytes(), "0x0102ff").unwrap(), TypedValue::Bytes(vec![1, 2, 0xff]));
    let mut padded = vec![0xde, 0xad, 0xbe, 0xef];
    padded.resize(32, 0);
    assert_eq!(
        coerce(&SolType::new("bytes4"), "0xdeadbeef").unwrap(),
        TypedValue::FixedBytes(padded, 4)
    );
}

#[test]
fn coerce_reads_a_negative_int() {
    let value = coerce(&SolType::new("int256"), "-1").unwrap();
    assert_eq!(value, TypedValue::Int(vec![0xff; 32], 256));
}

#[test]
fn coerce_reads_arrays_and_tuples() {
    let array = coerce(&SolType::new("uint256[]"), "[1, 2, 3]").unwrap();
    assert_eq!(
        array,
        TypedValue::Array(vec![
            TypedValue::Uint(word(1), 256),
            TypedValue::Uint(word(2), 256),
            TypedValue::Uint(word(3), 256),
        ])
    );
    let tuple = coerce(&SolType::new("(bool,uint8)"), "(true, 7)").unwrap();
    assert_eq!(
        tuple,
        TypedValue::Tuple(vec![TypedValue::Bool(true), TypedValue::Uint(word(7), 8)])
    );
}

#[test]
fn coerce_refuses_an_overflowing_uint8() {
    match coerce(&SolType::new("uint8"), "256") {
        Err(DeployerError::TypeConversion { expected, actual }) => {
            assert_eq!(expected, "uint8");
            assert_eq!(actual, "256");
        }
        other => panic!("expected a type conversion error, got {:?}", other),
    }
}

#[test]
fn coerce_refuses_a_short_address() {
    assert!(matches!(
        coerce(&SolType::address(), "0x1234"),
        Err(DeployerError::TypeConversion { .. })
    ));
}

#[test]
fn coerce_refuses_a_wrong_number_of_fixed_bytes() {
    assert!(matches!(
        coerce(&SolType::bytes32(), "0x1234"),
        Err(DeployerError::TypeConversion { .. })
    ));
}

#[test]
fn coerce_declared_tells_a_bad_type_from_a_bad_value() {
    match coerce_declared("no such type", "1") {
        Err(DeployerError::TypeConversion { expected, actual }) => {
            assert_eq!(expected, "no such type");
            assert_eq!(actual, "parse error");
        }
        other => panic!("expected a type conversion error, got {:?}", other),
    }
    match coerce_declared("bool", "maybe") {
        Err(DeployerError::TypeConversion { expected, actual }) => {
            assert_eq!(expected, "bool");
            assert_eq!(actual, "maybe");
        }
        other => panic!("expected a type conversion error, got {:?}", other),
    }
    assert_eq!(coerce_declared("uint256", "1000").unwrap(), TypedValue::Uint(word(1000), 256));
}

#[test]
fn type_names_are_recognised() {
    assert!(is_sol_type("uint256"));
    assert!(is_sol_type("address[]"));
    assert!(is_sol_type("(address,uint256)"));
    assert!(!is_sol_type("tuple"));
    assert!(!is_sol_type("uint7"));
}

#[test]
fn a_type_is_parsed_from_its_name() {
    assert_eq!(parse_sol_type("bytes32").unwrap(), SolType::bytes32());
    assert_eq!(parse_sol_type("uint256[2][]").unwrap().name, "uint256[2][]");
    assert_eq!(SolType::address().duplicate(), SolType::new("address"));
    match parse_sol_type("bytes33") {
        Err(DeployerError::TypeConversion { expected, actual }) => {
            assert_eq!(expected, "bytes33");
            assert_eq!(actual, "parse error");
        }
        other => panic!("expected a type conversion error, got {:?}", other),
    }
}

#[test]
fn sol_type_of_a_value() {
    assert_eq!(TypedValue::Address(address(1)).sol_type().unwrap().name, "address");
    assert_eq!(TypedValue::Uint(word(1), 256).sol_type().unwrap().name, "uint256");
    assert_eq!(TypedValue::Int(word(1), 128).sol_type().unwrap().name, "int128");
    assert_eq!(TypedValue::FixedBytes(vec![0; 32], 32).sol_type().unwrap().name, "bytes32");
    assert_eq!(TypedValue::Bytes(vec![]).sol_type().unwrap().name, "bytes");
    assert_eq!(TypedValue::String("x".to_string()).sol_type().unwrap().name, "string");
    assert_eq!(TypedValue::Bool(true).sol_type().unwrap().name, "bool");
    let array = TypedValue::Array(vec![TypedValue::Uint(word(1), 8)]);
    assert_eq!(array.sol_type().unwrap().name, "uint8[]");
    let fixed = TypedValue::FixedArray(vec![TypedValue::Bool(true), TypedValue::Bool(false)]);
    assert_eq!(fixed.sol_type().unwrap().name, "bool[2]");
    let tuple = TypedValue::Tuple(vec![TypedValue::Address(address(1)), TypedValue::Uint(word(2), 256)]);
    assert_eq!(tuple.sol_type().unwrap().name, "(address,uint256)");
    let single = TypedValue::Tuple(vec![TypedValue::Bool(true)]);
    assert_eq!(single.sol_type().unwrap().name, "(bool,)");
}

#[test]
fn an_empty_array_has_no_type() {
    assert!(TypedValue::Array(vec![]).sol_type().is_none());
    assert!(TypedValue::Tuple(vec![TypedValue::Array(vec![])]).sol_type().is_none());
    assert_eq!(TypedValue::Tuple(vec![]).sol_type().unwrap().name, "()");
}

#[test]
fn well_formedness_is_checked_in_every_part() {
    assert!(TypedValue::Address(address(1)).is_well_formed());
    assert!(!TypedValue::Address(vec![1, 2, 3]).is_well_formed());
    assert!(!TypedValue::Uint(vec![1], 256).is_well_formed());
    assert!(!TypedValue::Tuple(vec![TypedValue::Bool(true), TypedValue::Function(vec![0; 23])])
        .is_well_formed());
    assert!(TypedValue::Array(vec![TypedValue::Function(vec![0; 24])]).is_well_formed());
}

#[test]
fn duplicate_copies_a_value() {
    let value = TypedValue::Tuple(vec![
        TypedValue::String("hello".to_string()),
        TypedValue::Array(vec![TypedValue::Uint(word(9), 64)]),
    ]);
    assert_eq!(value.duplicate(), value);
}

#[test]
fn function_signature_is_parsed() {
    let function =
        AbiFunction::parse("function info(address who) view returns (address a, uint256 b)").unwrap();
    assert_eq!(function.name, "info");
    assert_eq!(function.inputs.len(), 1);
    assert_eq!(function.inputs[0].name, "who");
    assert_eq!(function.inputs[0].ty, "address");
    assert_eq!(function.outputs.len(), 2);
    assert_eq!(function.outputs[0].name, "a");
    assert_eq!(function.outputs[1].name, "b");
    assert_eq!(function.outputs[1].ty, "uint256");
}

#[test]
fn tuple_outputs_keep_their_components() {
    let function = AbiFunction::parse("function s() view returns ((address,uint256[]) s)").unwrap();
    assert_eq!(function.outputs.len(), 1);
    assert_eq!(function.outputs[0].name, "s");
    assert_eq!(function.outputs[0].ty, "tuple");
    assert_eq!(function.outputs[0].components.len(), 2);
    assert_eq!(function.outputs[0].components[0].name, "");
    assert_eq!(function.outputs[0].components[0].ty, "address");
    assert_eq!(function.outputs[0].components[1].ty, "uint256[]");
    assert!(function.outputs[0].components[1].components.is_empty());
}

#[test]
fn a_signature_that_does_not_parse_is_refused() {
    match AbiFunction::parse("function (") {
        Err(DeployerError::AbiParsing(text)) => assert_eq!(text, "function ("),
        other => panic!("expected an ABI parsing error, got {:?}", other),
    }
    assert!(matches!(
        AbiConstructor::parse("function foo()"),
        Err(DeployerError::AbiParsing(_))
    ));
}

#[test]
fn a_call_is_encoded_with_its_selector() {
    let function = AbiFunction::parse("function transfer(address to, uint256 amount)").unwrap();
    let data = function
        .encode_input(&vec![TypedValue::Address(address(0x11)), TypedValue::Uint(word(5), 256)])
        .unwrap();
    let mut expected = vec![0xa9, 0x05, 0x9c, 0xbb];
    expected.extend_from_slice(&[0u8; 12]);
    expected.extend_from_slice(&address(0x11));
    expected.extend_from_slice(&word(5));
    assert_eq!(data, expected);
}

#[test]
fn arguments_that_do_not_match_are_refused() {
    let function = AbiFunction::parse("function transfer(address to, uint256 amount)").unwrap();
    match function.encode_input(&vec![TypedValue::Bool(true)]) {
        Err(DeployerError::Execution(message)) => {
            assert_eq!(message, "arguments do not match the signature")
        }
        other => panic!("expected an execution error, got {:?}", other),
    }
    match function.encode_input(&vec![TypedValue::Address(vec![1]), TypedValue::Uint(word(5), 256)]) {
        Err(DeployerError::Execution(message)) => assert_eq!(message, "malformed argument"),
        other => panic!("expected an execution error, got {:?}", other),
    }
}

#[test]
fn constructor_arguments_are_encoded_without_selector() {
    let constructor = AbiConstructor::parse("constructor(address owner)").unwrap();
    assert_eq!(constructor.inputs.len(), 1);
    let data = constructor.encode_input(&vec![TypedValue::Address(address(0x22))]).unwrap();
    let mut expected = vec![0u8; 12];
    expected.extend_from_slice(&address(0x22));
    assert_eq!(data, expected);
    let none = AbiConstructor::parse("constructor()").unwrap();
    assert_eq!(none.encode_input(&vec![]).unwrap(), Vec::<u8>::new());
}

#[test]
fn returned_data_is_decoded() {
    let function = AbiFunction::parse("function info() view returns (address a, uint256 b)").unwrap();
    let mut data = vec![0u8; 12];
    data.extend_from_slice(&address(0x33));
    data.extend_from_slice(&word(42));
    let values = function.decode_output(&data).unwrap();
    assert_eq!(values, vec![TypedValue::Address(address(0x33)), TypedValue::Uint(word(42), 256)]);
}

#[test]
fn returned_data_that_is_too_short_is_refused() {
    let function = AbiFunction::parse("function x() view returns (uint256)").unwrap();
    match function.decode_output(&vec![1, 2, 3]) {
        Err(DeployerError::Execution(message)) => {
            assert_eq!(message, "cannot decode the returned data")
        }
        other => panic!("expected an execution error, got {:?}", other),
    }
}

#[test]
fn keccak256_of_nothing() {
    let digest = keccak256(&vec![]);
    assert_eq!(
        encode_hex(&digest),
        "0xc5d2460186f7233c927e7db2dcc703c0e500b653ca82273b7bfad8045d85a470"
    );
}

#[test]
fn keccak256_of_abc() {
    let digest = keccak256(&vec![b'a', b'b', b'c']);
    assert_eq!(
        encode_hex(&digest),
        "0x4e03657aea45a94fc7d47ba826c8d667c0d1e6e33a64a036ec44f58fa12d6c45"
    );
}

#[test]
fn hex_is_decoded_with_and_without_prefix() {
    assert_eq!(decode_hex("0x00ff10").unwrap(), vec![0x00, 0xff, 0x10]);
    assert_eq!(decode_hex("00FF10").unwrap(), vec![0x00, 0xff, 0x10]);
    assert_eq!(decode_hex("0x0xab").unwrap(), vec![0xab]);
    assert_eq!(decode_hex("").unwrap(), Vec::<u8>::new());
    assert_eq!(decode_hex("0x").unwrap(), Vec::<u8>::new());
}

#[test]
fn bad_hex_is_refused() {
    match decode_hex("0x123") {
        Err(DeployerError::TypeConversion { expected, actual }) => {
            assert_eq!(expected, "bytes");
            assert_eq!(actual, "0x123");
        }
        other => panic!("expected a type conversion error, got {:?}", other),
    }
    assert!(matches!(decode_hex("zz"), Err(DeployerError::TypeConversion { .. })));
}

#[test]
fn hex_prefix_is_stripped_as_often_as_it_stands() {
    assert_eq!(strip_hex_prefix("0x0x12"), "12");
    assert_eq!(strip_hex_prefix("12"), "12");
    assert_eq!(strip_hex_prefix("0"), "0");
    assert_eq!(strip_hex_prefix("x0x"), "x0x");
}

#[test]
fn bytes_are_written_as_lower_case_hex() {
    assert_eq!(encode_hex(&vec![0x4e, 0x59, 0xB4, 0x0c]), "0x4e59b40c");
    assert_eq!(encode_hex(&vec![]), "0x");
}

#[test]
fn numbers_are_written_in_decimal() {
    assert_eq!(decimal_text(0), "0");
    assert_eq!(decimal_text(7), "7");
    assert_eq!(decimal_text(10), "10");
    assert_eq!(decimal_text(256), "256");
    assert_eq!(decimal_text(1234567890), "1234567890");
}

#[test]
fn texts_are_compared_by_their_characters() {
    assert!(same_text("abc", "abc"));
    assert!(!same_text("abc", "abd"));
    assert!(!same_text("abc", "ab"));
}

#[test]
fn compound_arguments_are_encoded_as_the_abi_lays_them_out() {
    let signature = "function f(uint256[] values, (bool,uint8) pair, bytes2[2] tags, string note, bytes raw)";
    let args = vec![
        TypedValue::Array(vec![TypedValue::Uint(word(1), 256), TypedValue::Uint(word(2), 256)]),
        TypedValue::Tuple(vec![TypedValue::Bool(true), TypedValue::Uint(word(7), 8)]),
        TypedValue::FixedArray(vec![
            TypedValue::FixedBytes(
                {
                    let mut w = vec![0xab, 0xcd];
                    w.resize(32, 0);
                    w
                },
                2,
            ),
            TypedValue::FixedBytes(
                {
                    let mut w = vec![0x01, 0x02];
                    w.resize(32, 0);
                    w
                },
                2,
            ),
        ]),
        TypedValue::String("hello".to_string()),
        TypedValue::Bytes(vec![9, 8, 7]),
    ];
    let encoded = AbiFunction::parse(signature).unwrap().encode_input(&args).unwrap();
    let mut first = [0u8; 32];
    first[0] = 0xab;
    first[1] = 0xcd;
    let mut second = [0u8; 32];
    second[0] = 0x01;
    second[1] = 0x02;
    let reference = Function::parse(signature)
        .unwrap()
        .abi_encode_input(&[
            DynSolValue::Array(vec![
                DynSolValue::Uint(U256::from(1u64), 256),
                DynSolValue::Uint(U256::from(2u64), 256),
            ]),
            DynSolValue::Tuple(vec![
                DynSolValue::Bool(true),
                DynSolValue::Uint(U256::from(7u64), 8),
            ]),
            DynSolValue::FixedArray(vec![
                DynSolValue::FixedBytes(first.into(), 2),
                DynSolValue::FixedBytes(second.into(), 2),
            ]),
            DynSolValue::String("hello".to_string()),
            DynSolValue::Bytes(vec![9, 8, 7]),
        ])
        .unwrap();
    assert_eq!(encoded, reference);
    assert_eq!(encoded.len() % 32, 4);
}

#[test]
fn compound_returns_are_decoded_into_their_parts() {
    let function =
        AbiFunction::parse("function g() view returns (uint8[2] pair, (address,string)[] list)").unwrap();
    let data = Function::parse("function h(uint8[2] pair, (address,string)[] list)")
        .unwrap()
        .abi_encode_input_raw(&[
            DynSolValue::FixedArray(vec![
                DynSolValue::Uint(U256::from(3u64), 8),
                DynSolValue::Uint(U256::from(4u64), 8),
            ]),
            DynSolValue::Array(vec![DynSolValue::Tuple(vec![
                DynSolValue::Address([0x11u8; 20].into()),
                DynSolValue::String("x".to_string()),
            ])]),
        ])
        .unwrap();
    let values = function.decode_output(&data).unwrap();
    assert_eq!(
        values,
        vec![
            TypedValue::FixedArray(vec![TypedValue::Uint(word(3), 8), TypedValue::Uint(word(4), 8)]),
            TypedValue::Array(vec![TypedValue::Tuple(vec![
                TypedValue::Address(vec![0x11; 20]),
                TypedValue::String("x".to_string()),
            ])]),
        ]
    );
}

#[test]
fn signed_integers_and_function_pointers_cross_unchanged() {
    let function = AbiFunction::parse("function k(int16 delta, function callback)").unwrap();
    let mut minus_two = vec![0xffu8; 32];
    minus_two[31] = 0xfe;
    let pointer: Vec<u8> = (1..=24).collect();
    let encoded = function
        .encode_input(&vec![
            TypedValue::Int(minus_two.clone(), 16),
            TypedValue::Function(pointer.clone()),
        ])
        .unwrap();
    let mut expected = encoded[..4].to_vec();
    expected.extend_from_slice(&minus_two);
    expected.extend_from_slice(&pointer);
    expected.extend_from_slice(&[0u8; 8]);
    assert_eq!(encoded, expected);
    let back = AbiFunction::parse("function k() returns (int16 delta, function callback)")
        .unwrap()
        .decode_output(&encoded[4..].to_vec())
        .unwrap();
    assert_eq!(back, vec![TypedValue::Int(minus_two, 16), TypedValue::Function(pointer)]);
}

#[test]
fn an_exponent_of_ten_digits_is_refused_for_an_integer() {
    for text in [
        "1e9223372036854775807gwei",
        "1e9223372036854775807 ether",
        "1E+9223372036854775790gwei",
        "1e2147483647gwei",
        "5e-1234567890",
    ] {
        for ty in ["uint256", "int64", "uint8[]", "(bool,uint16)"] {
            match coerce(&SolType::new(ty), text) {
                Err(DeployerError::TypeConversion { expected, actual }) => {
                    assert_eq!(expected, ty);
                    assert_eq!(actual, text);
                }
                other => panic!("expected a type conversion error, got {:?}", other),
            }
        }
    }
    assert!(matches!(
        coerce_declared("uint256", "1e9223372036854775807gwei"),
        Err(DeployerError::TypeConversion { .. })
    ));
}

#[test]
fn ordinary_exponents_and_units_are_read() {
    let mut gwei = vec![0u8; 32];
    gwei[24..].copy_from_slice(&2_500_000_000u64.to_be_bytes());
    assert_eq!(coerce(&SolType::uint256(), "2.5 gwei").unwrap(), TypedValue::Uint(gwei, 256));
    assert_eq!(
        coerce(&SolType::uint256(), "1e18").unwrap(),
        TypedValue::Uint(word(1_000_000_000_000_000_000), 256)
    );
    assert_eq!(coerce(&SolType::uint256(), "1e+2").unwrap(), TypedValue::Uint(word(100), 256));
    assert_eq!(coerce(&SolType::uint256(), "1e77").unwrap().sol_type().unwrap().name, "uint256");
    assert!(coerce(&SolType::uint256(), "3e78").is_err());
    assert!(coerce(&SolType::uint256(), "3e123456789").is_err());
    assert_eq!(coerce(&SolType::uint256(), "0x1e").unwrap(), TypedValue::Uint(word(30), 256));
}

#[test]
fn digits_behind_an_e_are_no_exponent_for_other_types() {
    assert_eq!(
        coerce(&SolType::bytes(), "0x0e1234567890123456").unwrap(),
        TypedValue::Bytes(vec![0x0e, 0x12, 0x34, 0x56, 0x78, 0x90, 0x12, 0x34, 0x56])
    );
    assert_eq!(
        coerce(&SolType::string(), "e1234567890").unwrap(),
        TypedValue::String("e1234567890".to_string())
    );
}

#[test]
fn the_scan_for_exponents_counts_ten_digits() {
    assert!(has_long_exponent_text("1e1234567890"));
    assert!(has_long_exponent_text("[1, 2E-0000000000]"));
    assert!(has_long_exponent_text("e+12345678901"));
    assert!(!has_long_exponent_text("1e123456789"));
    assert!(!has_long_exponent_text("1e+123456789"));
    assert!(!has_long_exponent_text("1e12345 67890"));
    assert!(!has_long_exponent_text("1e+-1234567890"));
    assert!(!has_long_exponent_text("1234567890"));
    assert!(!has_long_exponent_text(""));
    assert!(!has_long_exponent_text("e"));
    assert!(names_integers_text("uint256"));
    assert!(names_integers_text("int"));
    assert!(names_integers_text("(address,int8)[]"));
    assert!(!names_integers_text("address"));
    assert!(!names_integers_text("bytes32"));
    assert!(!names_integers_text("string"));
    assert!(!names_integers_text("function"));
    assert!(!names_integers_text("in"));
    assert!(!names_integers_text(""));
}

#[test]
fn the_type_of_a_list_is_that_of_its_first_item() {
    let name = |value: TypedValue| value.sol_type().map(|ty| ty.name);
    let one = || TypedValue::Uint(word(1), 8);
    assert_eq!(name(TypedValue::FixedArray((0..12).map(|_| one()).collect())), Some("uint8[12]".to_string()));
    assert_eq!(
        name(TypedValue::Array(vec![TypedValue::Tuple(vec![one(), TypedValue::Array(vec![one()])])])),
        Some("(uint8,uint8[])[]".to_string())
    );
    assert_eq!(
        name(TypedValue::Array(vec![TypedValue::Array(vec![one()]), TypedValue::Array(vec![])])),
        Some("uint8[][]".to_string())
    );
    assert_eq!(name(TypedValue::Array(vec![TypedValue::Array(vec![]), TypedValue::Array(vec![one()])])), None);
    assert_eq!(name(TypedValue::Tuple(vec![one(), TypedValue::FixedArray(vec![])])), None);
    assert_eq!(
        name(TypedValue::Tuple(vec![TypedValue::Tuple(vec![]), TypedValue::Tuple(vec![])])),
        Some("((),())".to_string())
    );
    assert_eq!(name(TypedValue::FixedBytes(vec![0; 32], 1)), Some("bytes1".to_string()));
    assert_eq!(name(TypedValue::Function(vec![0; 24])), Some("function".to_string()));
    assert_eq!(name(TypedValue::Int(vec![0xff; 32], 256)), Some("int256".to_string()));
}

#[test]
fn a_value_of_the_wrong_length_has_no_type() {
    assert!(TypedValue::Address(vec![1, 2]).sol_type().is_none());
    assert!(TypedValue::Uint(vec![1], 8).sol_type().is_none());
    assert!(TypedValue::Int(vec![0; 33], 256).sol_type().is_none());
    assert!(TypedValue::FixedBytes(vec![0; 4], 4).sol_type().is_none());
    assert!(TypedValue::Function(vec![0; 20]).sol_type().is_none());
    assert!(TypedValue::Array(vec![TypedValue::Uint(word(1), 8), TypedValue::Uint(vec![], 8)])
        .sol_type()
        .is_none());
    assert!(TypedValue::Tuple(vec![TypedValue::Bool(true), TypedValue::Address(vec![])])
        .sol_type()
        .is_none());
}

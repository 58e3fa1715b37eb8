use deployer::abi::coerce;
use deployer::canonical::{decimal_of_bytes, signed_decimal_of_bytes, write_value};
use deployer::collector::{replace_template, OutputCollector};
use deployer::errors::DeployerError;
use deployer::indexer::AbiParam;
use deployer::types::{SolType, TypedValue};

fn word_of(n: u64) -> Vec<u8> {
    let mut word = vec![0u8; 24];
    word.extend_from_slice(&n.to_be_bytes());
    word
}

fn minus(n: u64) -> Vec<u8> {
    let mut word = vec![0xffu8; 24];
    word.extend_from_slice(&(n as i64).wrapping_neg().to_be_bytes());
    word
}

fn address_of(last: u8) -> TypedValue {
    let mut bytes = vec![0u8; 20];
    bytes[0] = 0xab;
    bytes[19] = last;
    TypedValue::Address(bytes)
}

fn collector_with(ty: &str, value: TypedValue) -> OutputCollector {
    let mut collector = OutputCollector::new();
    let param = AbiParam { name: "v".to_string(), ty: ty.to_string(), components: vec![] };
    collector.save_output_data("a".to_string(), vec![param], vec![value]).unwrap();
    collector
}

#[test]
fn bytes_are_written_in_decimal() {
    assert_eq!(decimal_of_bytes(&vec![]), "0");
    assert_eq!(decimal_of_bytes(&vec![0]), "0");
    assert_eq!(decimal_of_bytes(&vec![9]), "9");
    assert_eq!(decimal_of_bytes(&vec![10]), "10");
    assert_eq!(decimal_of_bytes(&vec![1, 0]), "256");
    assert_eq!(decimal_of_bytes(&word_of(0)), "0");
    assert_eq!(decimal_of_bytes(&word_of(1_000_000_007)), "1000000007");
    assert_eq!(decimal_of_bytes(&word_of(u64::MAX)), "18446744073709551615");
    assert_eq!(
        decimal_of_bytes(&vec![0xff; 32]),
        "115792089237316195423570985008687907853269984665640564039457584007913129639935"
    );
}

#[test]
fn a_negative_number_is_written_with_its_sign() {
    assert_eq!(signed_decimal_of_bytes(&vec![]), "0");
    assert_eq!(signed_decimal_of_bytes(&vec![0x7f]), "127");
    assert_eq!(signed_decimal_of_bytes(&vec![0x80]), "-128");
    assert_eq!(signed_decimal_of_bytes(&vec![0xff]), "-1");
    assert_eq!(signed_decimal_of_bytes(&vec![0xf6]), "-10");
    assert_eq!(signed_decimal_of_bytes(&vec![0x9c]), "-100");
    assert_eq!(signed_decimal_of_bytes(&vec![0xff, 0x00]), "-256");
    assert_eq!(signed_decimal_of_bytes(&word_of(42)), "42");
    assert_eq!(signed_decimal_of_bytes(&minus(42)), "-42");
    assert_eq!(signed_decimal_of_bytes(&minus(1_000_000)), "-1000000");
    assert_eq!(signed_decimal_of_bytes(&vec![0xff; 32]), "-1");
    let mut least = vec![0u8; 32];
    least[0] = 0x80;
    assert_eq!(
        signed_decimal_of_bytes(&least),
        "-57896044618658097711785492504343953926634992332820282019728792003956564819968"
    );
    let mut greatest = vec![0xffu8; 32];
    greatest[0] = 0x7f;
    assert_eq!(
        signed_decimal_of_bytes(&greatest),
        "57896044618658097711785492504343953926634992332820282019728792003956564819967"
    );
}

#[test]
fn every_kind_of_value_has_its_text() {
    assert_eq!(write_value(&address_of(1)), "0xab00000000000000000000000000000000000001");
    assert_eq!(write_value(&TypedValue::Bool(true)), "true");
    assert_eq!(write_value(&TypedValue::Bool(false)), "false");
    assert_eq!(write_value(&TypedValue::Uint(word_of(255), 8)), "255");
    assert_eq!(write_value(&TypedValue::Int(minus(7), 256)), "-7");
    let mut word = vec![0u8; 32];
    word[..4].copy_from_slice(&[0xde, 0xad, 0xbe, 0xef]);
    assert_eq!(write_value(&TypedValue::FixedBytes(word.clone(), 4)), "0xdeadbeef");
    assert_eq!(write_value(&TypedValue::FixedBytes(word, 6)), "0xdeadbeef0000");
    assert_eq!(write_value(&TypedValue::FixedBytes(vec![1, 2], 4)), "0x0102");
    assert_eq!(write_value(&TypedValue::Bytes(vec![])), "0x");
    assert_eq!(write_value(&TypedValue::Bytes(vec![0x0a, 0xf0])), "0x0af0");
    assert_eq!(write_value(&TypedValue::String("a, b".to_string())), "a, b");
    assert_eq!(write_value(&TypedValue::Function(vec![0x11; 24])), format!("0x{}", "11".repeat(24)));
}

#[test]
fn a_list_is_written_with_commas_in_brackets() {
    let one = TypedValue::Uint(word_of(1), 256);
    let two = TypedValue::Uint(word_of(2), 256);
    let three = TypedValue::Uint(word_of(3), 256);
    assert_eq!(write_value(&TypedValue::Array(vec![])), "[]");
    assert_eq!(write_value(&TypedValue::Tuple(vec![])), "()");
    assert_eq!(write_value(&TypedValue::Array(vec![TypedValue::Uint(word_of(1), 256)])), "[1]");
    assert_eq!(write_value(&TypedValue::Array(vec![one, two, three])), "[1,2,3]");
    let pair = TypedValue::Tuple(vec![TypedValue::Bool(true), TypedValue::Int(minus(1), 8)]);
    assert_eq!(write_value(&pair), "(true,-1)");
    let nested = TypedValue::FixedArray(vec![
        TypedValue::Array(vec![TypedValue::Uint(word_of(4), 256), TypedValue::Uint(word_of(5), 256)]),
        TypedValue::Array(vec![]),
    ]);
    assert_eq!(write_value(&nested), "[[4,5],[]]");
}

#[test]
fn the_first_template_gives_way_to_the_text() {
    assert_eq!(replace_template("${a}", "7"), "7");
    assert_eq!(replace_template("x${a.b[0]}y", "7"), "x7y");
    assert_eq!(replace_template("${a}${b}", "7"), "7${b}");
    assert_eq!(replace_template("${}${b}!", "7"), "${}7!");
    assert_eq!(replace_template("${${a}", ""), "");
    assert_eq!(replace_template("no template", "7"), "no template");
    assert_eq!(replace_template("${a", "7"), "${a");
    assert_eq!(replace_template("", "7"), "");
}

#[test]
fn a_written_value_is_read_back() {
    let mut word = vec![0u8; 32];
    word[..4].copy_from_slice(&[0xde, 0xad, 0xbe, 0xef]);
    let values = vec![
        ("address", address_of(9)),
        ("bool", TypedValue::Bool(true)),
        ("uint256", TypedValue::Uint(vec![0xff; 32], 256)),
        ("uint8", TypedValue::Uint(word_of(200), 8)),
        ("int256", TypedValue::Int(minus(12345), 256)),
        ("int16", TypedValue::Int(minus(300), 16)),
        ("bytes4", TypedValue::FixedBytes(word, 4)),
        ("bytes", TypedValue::Bytes(vec![1, 2, 3])),
        ("string", TypedValue::String("plain words".to_string())),
        (
            "uint256[]",
            TypedValue::Array(vec![TypedValue::Uint(word_of(1), 256), TypedValue::Uint(word_of(2), 256)]),
        ),
        (
            "(address,bool)",
            TypedValue::Tuple(vec![address_of(3), TypedValue::Bool(false)]),
        ),
    ];
    for (ty, value) in values {
        let text = write_value(&value);
        assert_eq!(coerce(&SolType::new(ty), &text).unwrap(), value, "{} from {}", ty, text);
    }
}

#[test]
fn a_template_is_read_as_the_expected_type() {
    let collector = collector_with("address", address_of(5));
    assert_eq!(collector.get_input_value("${a.v}", SolType::address()).unwrap(), address_of(5));
    assert_eq!(
        collector.get_input_value("to ${a.v}", SolType::string()).unwrap(),
        TypedValue::String("to 0xab00000000000000000000000000000000000005".to_string())
    );
    match collector.get_input_value("${a.v}", SolType::new("bool")) {
        Err(DeployerError::TypeConversion { expected, actual }) => {
            assert_eq!(expected, "bool");
            assert_eq!(actual, "0xab00000000000000000000000000000000000005");
        },
        other => panic!("expected a conversion error, got {:?}", other),
    }
    let collector = collector_with("int256", TypedValue::Int(minus(5), 256));
    assert_eq!(
        collector.get_input_value("${a.v}", SolType::new("int256")).unwrap(),
        TypedValue::Int(minus(5), 256)
    );
    assert_eq!(
        collector.get_input_value("${a.v}0", SolType::new("int256")).unwrap(),
        TypedValue::Int(minus(50), 256)
    );
    assert!(collector.get_input_value("${a.v}", SolType::uint256()).is_err());
}

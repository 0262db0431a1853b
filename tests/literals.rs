use rios::{build_ast_con, char_to_num, parse_chars_in_base, BuildError, Node, PinDirection, PinType, Rule, Type, AST};

fn node(rule: Rule, text: &str, children: Vec<Node>) -> Node {
    Node { rule, text: text.to_string(), children }
}

fn leaf(rule: Rule, text: &str) -> Node {
    node(rule, text, vec![])
}

fn con(inner: Node) -> Node {
    let text = inner.text.clone();
    node(Rule::Con, &text, vec![inner])
}

fn uint32(value: u32) -> AST {
    AST::Con { t: Type::Int { signed: false, length: 32 }, value: Some(value) }
}

fn pin(pintype: Option<PinType>, direction: PinDirection) -> AST {
    AST::Con { t: Type::Pin { pintype, direction: Some(direction) }, value: None }
}

fn chars(s: &str) -> Vec<char> {
    s.chars().collect()
}

#[test]
fn char_to_num_reads_decimal_and_hex_digits() {
    assert_eq!(char_to_num('0'), Some(0));
    assert_eq!(char_to_num('7'), Some(7));
    assert_eq!(char_to_num('9'), Some(9));
    assert_eq!(char_to_num('a'), Some(10));
    assert_eq!(char_to_num('F'), Some(15));
    assert_eq!(char_to_num('e'), Some(14));
}

#[test]
fn char_to_num_rejects_other_characters() {
    assert_eq!(char_to_num('g'), None);
    assert_eq!(char_to_num('_'), None);
    assert_eq!(char_to_num(' '), None);
}

#[test]
fn parse_chars_in_base_accumulates_positionally() {
    assert_eq!(parse_chars_in_base(2, &chars("1010")), Some(10));
    assert_eq!(parse_chars_in_base(8, &chars("777")), Some(511));
    assert_eq!(parse_chars_in_base(10, &chars("1234")), Some(1234));
    assert_eq!(parse_chars_in_base(16, &chars("fF")), Some(255));
    assert_eq!(parse_chars_in_base(16, &chars("DEADBEEF")), Some(0xDEAD_BEEF));
}

#[test]
fn parse_chars_in_base_of_no_digits_is_zero() {
    assert_eq!(parse_chars_in_base(10, &[]), Some(0));
}

#[test]
fn parse_chars_in_base_rejects_digits_beyond_base() {
    assert_eq!(parse_chars_in_base(8, &chars("78")), None);
    assert_eq!(parse_chars_in_base(2, &chars("102")), None);
    assert_eq!(parse_chars_in_base(10, &chars("1a")), None);
}

#[test]
fn parse_chars_in_base_stops_at_32_bits() {
    assert_eq!(parse_chars_in_base(10, &chars("4294967295")), Some(u32::MAX));
    assert_eq!(parse_chars_in_base(10, &chars("4294967296")), None);
    assert_eq!(parse_chars_in_base(16, &chars("100000000")), None);
}

#[test]
fn numeric_literals_in_every_base() {
    assert_eq!(build_ast_con(&con(leaf(Rule::DecCon, "42"))), Ok(uint32(42)));
    assert_eq!(build_ast_con(&con(leaf(Rule::BinCon, "0b101"))), Ok(uint32(5)));
    assert_eq!(build_ast_con(&con(leaf(Rule::OctCon, "0o17"))), Ok(uint32(15)));
    assert_eq!(build_ast_con(&con(leaf(Rule::HexCon, "0x1F"))), Ok(uint32(31)));
}

#[test]
fn malformed_numeric_literal_is_an_error() {
    assert_eq!(
        build_ast_con(&con(leaf(Rule::OctCon, "0o19"))),
        Err(BuildError::InvalidLiteral { text: "0o19".to_string() })
    );
    assert_eq!(
        build_ast_con(&con(leaf(Rule::HexCon, "0xfg"))),
        Err(BuildError::InvalidLiteral { text: "0xfg".to_string() })
    );
}

#[test]
fn oversized_numeric_literal_is_a_constant_without_value() {
    let over = AST::Con { t: Type::Int { signed: false, length: 32 }, value: None };
    assert_eq!(build_ast_con(&con(leaf(Rule::DecCon, "99999999999"))), Ok(over));
    let over = AST::Con { t: Type::Int { signed: false, length: 32 }, value: None };
    assert_eq!(build_ast_con(&con(leaf(Rule::DecCon, "4294967296"))), Ok(over));
    assert_eq!(build_ast_con(&con(leaf(Rule::DecCon, "4294967295"))), Ok(uint32(u32::MAX)));
}

#[test]
fn pin_literal_digital_output() {
    let lit = node(
        Rule::PinCon,
        "digital output",
        vec![
            node(Rule::PinPinType, "digital", vec![leaf(Rule::PinDigital, "digital")]),
            leaf(Rule::PinOutput, "output"),
        ],
    );
    assert_eq!(build_ast_con(&con(lit)), Ok(pin(Some(PinType::Digital), PinDirection::Output)));
}

#[test]
fn pin_literal_input_pullup_without_kind() {
    let lit = node(
        Rule::PinCon,
        "input pullup",
        vec![leaf(Rule::PinInput, "input"), leaf(Rule::PinPullup, "pullup")],
    );
    assert_eq!(build_ast_con(&con(lit)), Ok(pin(None, PinDirection::Input { pullup: true })));
}

#[test]
fn pin_literal_analog_input_without_pullup() {
    let lit = node(
        Rule::PinCon,
        "analog input",
        vec![
            node(Rule::PinPinType, "analog", vec![leaf(Rule::PinAnalog, "analog")]),
            leaf(Rule::PinInput, "input"),
        ],
    );
    assert_eq!(
        build_ast_con(&con(lit)),
        Ok(pin(Some(PinType::Analog), PinDirection::Input { pullup: false }))
    );
}

#[test]
fn pin_literal_without_direction_is_an_error() {
    let lit = node(
        Rule::PinCon,
        "digital",
        vec![node(Rule::PinPinType, "digital", vec![leaf(Rule::PinDigital, "digital")])],
    );
    assert_eq!(
        build_ast_con(&con(lit)),
        Err(BuildError::MissingChild { rule: Rule::PinCon, text: "digital".to_string() })
    );
}

#[test]
fn name_literal_is_a_reference() {
    assert_eq!(
        build_ast_con(&con(leaf(Rule::VarName, "led"))),
        Ok(AST::Reference { t: None, name: "led".to_string() })
    );
}

#[test]
fn unknown_literal_tag_is_an_error() {
    assert_eq!(
        build_ast_con(&con(leaf(Rule::Stmt, "x"))),
        Err(BuildError::UnexpectedRule { rule: Rule::Stmt, text: "x".to_string() })
    );
    assert_eq!(
        build_ast_con(&leaf(Rule::Con, "")),
        Err(BuildError::MissingChild { rule: Rule::Con, text: "".to_string() })
    );
}

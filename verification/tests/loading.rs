use bytecode_vm::fault::{LoadFault, NumberFault, SyntaxFault, VariableFault};
use bytecode_vm::identifier::valid_variable;
use bytecode_vm::instruction::{Instruction, Opcode, Statement};
use bytecode_vm::number::parse_i32;
use bytecode_vm::program::byte_code;
use bytecode_vm::text::{same_text, separates, split_tokens};

fn lines(text: &[&str]) -> Vec<String> {
    text.iter().map(|line| line.to_string()).collect()
}

fn load_fault(text: &[&str]) -> LoadFault {
    match byte_code::load(&lines(text)) {
        Ok(_) => panic!("the text loaded"),
        Err(fault) => fault,
    }
}

#[test]
fn valid_variable_accepts_quoted_name() {
    assert_eq!(valid_variable("'x1_'".to_string()), Ok("x1_".to_string()));
    assert_eq!(valid_variable("'x'".to_string()), Ok("x".to_string()));
    assert_eq!(valid_variable("'_'".to_string()), Ok("_".to_string()));
}

#[test]
fn valid_variable_rejects_short_token() {
    assert_eq!(valid_variable("xy".to_string()), Err(VariableFault::TooShort));
    assert_eq!(valid_variable("''".to_string()), Err(VariableFault::TooShort));
    assert_eq!(valid_variable("".to_string()), Err(VariableFault::TooShort));
}

#[test]
fn valid_variable_counts_the_quotes() {
    assert_eq!(valid_variable("'xy'".to_string()), Ok("xy".to_string()));
}

#[test]
fn valid_variable_rejects_bad_first_character() {
    assert_eq!(valid_variable("'1abc'".to_string()), Err(VariableFault::BadFirstCharacter));
    assert_eq!(valid_variable("'-a'".to_string()), Err(VariableFault::BadFirstCharacter));
    assert_eq!(valid_variable("'''".to_string()), Err(VariableFault::BadFirstCharacter));
}

#[test]
fn valid_variable_rejects_missing_quotes() {
    assert_eq!(valid_variable("abc".to_string()), Err(VariableFault::BadQuotes));
    assert_eq!(valid_variable("'abc".to_string()), Err(VariableFault::BadQuotes));
    assert_eq!(valid_variable("abc'".to_string()), Err(VariableFault::BadQuotes));
    assert_eq!(valid_variable("\"abc\"".to_string()), Err(VariableFault::BadQuotes));
}

#[test]
fn valid_variable_rejects_non_ascii() {
    assert_eq!(valid_variable("'número'".to_string()), Err(VariableFault::NotAscii));
    assert_eq!(valid_variable("‘abc’".to_string()), Err(VariableFault::NotAscii));
    assert_eq!(valid_variable("éé".to_string()), Err(VariableFault::TooShort));
}

#[test]
fn valid_variable_rejects_bad_body_character() {
    assert_eq!(valid_variable("'a-b'".to_string()), Err(VariableFault::BadBodyCharacter));
    assert_eq!(valid_variable("'a b'".to_string()), Err(VariableFault::BadBodyCharacter));
    assert_eq!(valid_variable("'ab''".to_string()), Err(VariableFault::BadBodyCharacter));
}

#[test]
fn valid_variable_lowers_the_case() {
    assert_eq!(valid_variable("'Total_9Z'".to_string()), Ok("total_9z".to_string()));
    assert_eq!(valid_variable("'AZ'".to_string()), Ok("az".to_string()));
    assert_eq!(valid_variable("'_@'".to_string()), Err(VariableFault::BadBodyCharacter));
    assert_eq!(valid_variable("'a['".to_string()), Err(VariableFault::BadBodyCharacter));
    assert_eq!(valid_variable("'a`'".to_string()), Err(VariableFault::BadBodyCharacter));
    assert_eq!(valid_variable("'a{'".to_string()), Err(VariableFault::BadBodyCharacter));
}

#[test]
fn valid_variable_agrees_with_std_on_ascii() {
    for code in 0u8..128 {
        let c = code as char;
        let token = format!("'a{}'", c);
        let expected = if c.is_alphanumeric() || c == '_' {
            Ok(format!("a{}", c.to_ascii_lowercase()))
        } else {
            Err(VariableFault::BadBodyCharacter)
        };
        assert_eq!(valid_variable(token), expected);
        let token = format!("'{}a'", c);
        let expected = if c.is_alphabetic() || c == '_' {
            Ok(format!("{}a", c.to_ascii_lowercase()))
        } else {
            Err(VariableFault::BadFirstCharacter)
        };
        assert_eq!(valid_variable(token), expected);
    }
}

#[test]
fn split_tokens_splits_on_whitespace() {
    assert_eq!(split_tokens("LOAD_VAL 2"), vec!["LOAD_VAL".to_string(), "2".to_string()]);
    assert_eq!(split_tokens("  ADD\t"), vec!["ADD".to_string()]);
    assert_eq!(split_tokens(""), Vec::<String>::new());
    assert_eq!(split_tokens(" \t \r"), Vec::<String>::new());
    assert_eq!(
        split_tokens("a  b\u{a0}c\u{3000}d"),
        vec!["a".to_string(), "b".to_string(), "c".to_string(), "d".to_string()]
    );
}

#[test]
fn split_tokens_agrees_with_std() {
    let samples = [
        "",
        " ",
        "x",
        " x",
        "x ",
        "LOAD_VAL   17",
        "\tJMP\u{2003}loop\u{2028}",
        "a\u{85}b\u{1680}c\u{2000}d\u{200a}e\u{2029}f\u{202f}g\u{205f}h",
        "not\u{200b}split\u{feff}here",
        "WRITE_VAR 'wert' trailing",
        "\u{b}\u{c}vertical\u{d}\u{a}",
        "é ü  ∂",
    ];
    for sample in samples {
        let expected: Vec<String> = sample.split_whitespace().map(str::to_string).collect();
        assert_eq!(split_tokens(sample), expected);
    }
}

#[test]
fn separates_agrees_with_std() {
    for code in 0u32..0x11000 {
        if let Some(c) = char::from_u32(code) {
            assert_eq!(separates(c), c.is_whitespace());
        }
    }
}

#[test]
fn same_text_compares_characters() {
    assert!(same_text("ADD", "ADD"));
    assert!(same_text("", ""));
    assert!(!same_text("ADD", "ADd"));
    assert!(!same_text("ADD", "ADDX"));
    assert!(!same_text("JMP", "JMP_LE"));
    assert!(same_text("∂é", "∂é"));
    assert!(!same_text("∂é", "∂e"));
}

#[test]
fn parse_i32_reads_decimal_literals() {
    assert_eq!(parse_i32("0"), Ok(0));
    assert_eq!(parse_i32("17"), Ok(17));
    assert_eq!(parse_i32("-17"), Ok(-17));
    assert_eq!(parse_i32("+17"), Ok(17));
    assert_eq!(parse_i32("-0"), Ok(0));
    assert_eq!(parse_i32("0007"), Ok(7));
    assert_eq!(parse_i32("2147483647"), Ok(i32::MAX));
    assert_eq!(parse_i32("-2147483648"), Ok(i32::MIN));
    assert_eq!(parse_i32("000000000000000000002147483647"), Ok(i32::MAX));
}

#[test]
fn parse_i32_reports_each_fault() {
    assert_eq!(parse_i32(""), Err(NumberFault::Empty));
    assert_eq!(parse_i32("-"), Err(NumberFault::InvalidDigit));
    assert_eq!(parse_i32("+"), Err(NumberFault::InvalidDigit));
    assert_eq!(parse_i32("12a"), Err(NumberFault::InvalidDigit));
    assert_eq!(parse_i32("--1"), Err(NumberFault::InvalidDigit));
    assert_eq!(parse_i32("1-"), Err(NumberFault::InvalidDigit));
    assert_eq!(parse_i32("1.5"), Err(NumberFault::InvalidDigit));
    assert_eq!(parse_i32("٣"), Err(NumberFault::InvalidDigit));
    assert_eq!(parse_i32("2147483648"), Err(NumberFault::OutOfRange));
    assert_eq!(parse_i32("-2147483649"), Err(NumberFault::OutOfRange));
    assert_eq!(parse_i32("99999999999999999999999999"), Err(NumberFault::OutOfRange));
    assert_eq!(parse_i32("-99999999999999999999999999"), Err(NumberFault::OutOfRange));
    assert_eq!(parse_i32("99999999999999999999999999x"), Err(NumberFault::InvalidDigit));
}

#[test]
fn parse_i32_accepts_what_std_accepts() {
    let samples = [
        "", "0", "-0", "+0", "1", "-1", "+1", "12345", "-12345", "2147483647", "2147483648",
        "-2147483648", "-2147483649", "4294967296", "-", "+", "+-1", "1+", " 1", "1 ", "0x10",
        "1_000", "00000000000001", "-00000000000001", "9999999999",
    ];
    for sample in samples {
        assert_eq!(parse_i32(sample).ok(), sample.parse::<i32>().ok(), "{:?}", sample);
    }
}

#[test]
fn opcode_from_token_knows_the_opcode_set() {
    assert_eq!(Opcode::from_token("LOAD_VAL"), Some(Opcode::LoadValue));
    assert_eq!(Opcode::from_token("WRITE_VAR"), Some(Opcode::WriteVar));
    assert_eq!(Opcode::from_token("READ_VAR"), Some(Opcode::ReadVar));
    assert_eq!(Opcode::from_token("CMP"), Some(Opcode::Compare));
    assert_eq!(Opcode::from_token("JMP"), Some(Opcode::Jump));
    assert_eq!(Opcode::from_token("JMP_LE"), Some(Opcode::JumpIfNegative));
    assert_eq!(Opcode::from_token("ADD"), Some(Opcode::Add));
    assert_eq!(Opcode::from_token("SUB"), Some(Opcode::Subtract));
    assert_eq!(Opcode::from_token("MULTIPLY"), Some(Opcode::Multiply));
    assert_eq!(Opcode::from_token("DIVIDE"), Some(Opcode::Divide));
    assert_eq!(Opcode::from_token("RETURN_VALUE"), Some(Opcode::Return));
    assert_eq!(Opcode::from_token("LABEL"), Some(Opcode::Label));
    assert_eq!(Opcode::from_token("add"), None);
    assert_eq!(Opcode::from_token("ADDX"), None);
    assert_eq!(Opcode::from_token("AD"), None);
    assert_eq!(Opcode::from_token(""), None);
}

#[test]
fn opcode_line_length_counts_the_opcode() {
    assert_eq!(Opcode::LoadValue.line_length(), 2);
    assert_eq!(Opcode::WriteVar.line_length(), 2);
    assert_eq!(Opcode::ReadVar.line_length(), 2);
    assert_eq!(Opcode::Compare.line_length(), 2);
    assert_eq!(Opcode::Jump.line_length(), 2);
    assert_eq!(Opcode::JumpIfNegative.line_length(), 2);
    assert_eq!(Opcode::Label.line_length(), 2);
    assert_eq!(Opcode::Add.line_length(), 1);
    assert_eq!(Opcode::Subtract.line_length(), 1);
    assert_eq!(Opcode::Multiply.line_length(), 1);
    assert_eq!(Opcode::Divide.line_length(), 1);
    assert_eq!(Opcode::Return.line_length(), 1);
}

#[test]
fn check_length_compares_token_count() {
    let buffer = vec!["LOAD_VAL".to_string(), "2".to_string()];
    assert_eq!(byte_code::check_length(&buffer, 2), Ok(()));
    assert_eq!(
        byte_code::check_length(&buffer, 1),
        Err(SyntaxFault::WrongArity { expected: 1, found: 2 })
    );
    assert_eq!(
        byte_code::check_length(&buffer, 3),
        Err(SyntaxFault::WrongArity { expected: 3, found: 2 })
    );
    assert_eq!(byte_code::check_length(&Vec::new(), 0), Ok(()));
    assert_eq!(
        byte_code::check_length(&buffer, 0),
        Err(SyntaxFault::WrongArity { expected: 0, found: 2 })
    );
}

#[test]
fn convert_to_result_keeps_success_and_replaces_failure() {
    let ok: Result<i32, NumberFault> = Ok(4);
    assert_eq!(byte_code::convert_to_result(ok, SyntaxFault::BadInteger), Ok(4));
    let err: Result<i32, NumberFault> = Err(NumberFault::Empty);
    assert_eq!(
        byte_code::convert_to_result(err, SyntaxFault::BadInteger),
        Err(SyntaxFault::BadInteger)
    );
    let err: Result<String, String> = Err("no".to_string());
    assert_eq!(
        byte_code::convert_to_result(err, SyntaxFault::UnknownOpcode),
        Err(SyntaxFault::UnknownOpcode)
    );
}

#[test]
fn read_line_reads_each_kind_of_line() {
    assert_eq!(byte_code::read_line(""), Ok(Statement::Blank));
    assert_eq!(byte_code::read_line("   \t"), Ok(Statement::Blank));
    assert_eq!(
        byte_code::read_line("LOAD_VAL -3"),
        Ok(Statement::Emit(Instruction::LoadValue(-3)))
    );
    assert_eq!(
        byte_code::read_line("WRITE_VAR 'Sum'"),
        Ok(Statement::Emit(Instruction::WriteVar("sum".to_string())))
    );
    assert_eq!(
        byte_code::read_line("READ_VAR 'sum'"),
        Ok(Statement::Emit(Instruction::ReadVar("sum".to_string())))
    );
    assert_eq!(byte_code::read_line("CMP 10"), Ok(Statement::Emit(Instruction::Compare(10))));
    assert_eq!(
        byte_code::read_line("JMP Loop"),
        Ok(Statement::Emit(Instruction::Jump("Loop".to_string())))
    );
    assert_eq!(
        byte_code::read_line("JMP_LE 'q'"),
        Ok(Statement::Emit(Instruction::JumpIfNegative("'q'".to_string())))
    );
    assert_eq!(byte_code::read_line(" ADD "), Ok(Statement::Emit(Instruction::Add)));
    assert_eq!(byte_code::read_line("SUB"), Ok(Statement::Emit(Instruction::Subtract)));
    assert_eq!(byte_code::read_line("MULTIPLY"), Ok(Statement::Emit(Instruction::Multiply)));
    assert_eq!(byte_code::read_line("DIVIDE"), Ok(Statement::Emit(Instruction::Divide)));
    assert_eq!(byte_code::read_line("RETURN_VALUE"), Ok(Statement::Emit(Instruction::Return)));
    assert_eq!(byte_code::read_line("LABEL Loop"), Ok(Statement::Label("Loop".to_string())));
}

#[test]
fn read_line_reports_each_fault() {
    assert_eq!(byte_code::read_line("PUSH 1"), Err(SyntaxFault::UnknownOpcode));
    assert_eq!(byte_code::read_line("load_val 1"), Err(SyntaxFault::UnknownOpcode));
    assert_eq!(
        byte_code::read_line("LOAD_VAL"),
        Err(SyntaxFault::WrongArity { expected: 2, found: 1 })
    );
    assert_eq!(
        byte_code::read_line("LOAD_VAL 1 2"),
        Err(SyntaxFault::WrongArity { expected: 2, found: 3 })
    );
    assert_eq!(
        byte_code::read_line("ADD 1"),
        Err(SyntaxFault::WrongArity { expected: 1, found: 2 })
    );
    assert_eq!(
        byte_code::read_line("LABEL"),
        Err(SyntaxFault::WrongArity { expected: 2, found: 1 })
    );
    assert_eq!(byte_code::read_line("LOAD_VAL x"), Err(SyntaxFault::BadInteger));
    assert_eq!(byte_code::read_line("CMP 99999999999"), Err(SyntaxFault::BadInteger));
    assert_eq!(
        byte_code::read_line("WRITE_VAR x"),
        Err(SyntaxFault::BadIdentifier(VariableFault::TooShort))
    );
    assert_eq!(
        byte_code::read_line("READ_VAR abc"),
        Err(SyntaxFault::BadIdentifier(VariableFault::BadQuotes))
    );
    assert_eq!(
        byte_code::read_line("READ_VAR '9a'"),
        Err(SyntaxFault::BadIdentifier(VariableFault::BadFirstCharacter))
    );
    assert_eq!(
        byte_code::read_line("READ_VAR 'a.b'"),
        Err(SyntaxFault::BadIdentifier(VariableFault::BadBodyCharacter))
    );
    assert_eq!(
        byte_code::read_line("READ_VAR 'ä'"),
        Err(SyntaxFault::BadIdentifier(VariableFault::NotAscii))
    );
}

#[test]
fn new_is_the_empty_program() {
    let program = byte_code::new();
    assert_eq!(program.len(), 0);
    assert_eq!(program.instruction(0), None);
    assert_eq!(program.label("loop"), None);
}

#[test]
fn load_rejects_unknown_opcode() {
    for token in ["PUSH", "add", "Add", "LOAD_VALUE", "RETURN", "LABELS", "JMP_GE", "1", "'x'"] {
        let first = format!("{} 1", token);
        assert_eq!(
            load_fault(&[first.as_str(), "RETURN_VALUE"]),
            LoadFault::Syntax { line: 1, fault: SyntaxFault::UnknownOpcode }
        );
        assert_eq!(
            load_fault(&["LOAD_VAL 1", "", token, "RETURN_VALUE"]),
            LoadFault::Syntax { line: 3, fault: SyntaxFault::UnknownOpcode }
        );
    }
}

#[test]
fn load_reports_the_first_malformed_line() {
    assert_eq!(
        load_fault(&["LOAD_VAL 1", "ADD 2", "NOPE", "RETURN_VALUE"]),
        LoadFault::Syntax { line: 2, fault: SyntaxFault::WrongArity { expected: 1, found: 2 } }
    );
    assert_eq!(
        load_fault(&["", "", "LOAD_VAL one"]),
        LoadFault::Syntax { line: 3, fault: SyntaxFault::BadInteger }
    );
    assert_eq!(
        load_fault(&["WRITE_VAR 'a b'", "RETURN_VALUE"]),
        LoadFault::Syntax { line: 1, fault: SyntaxFault::WrongArity { expected: 2, found: 3 } }
    );
    assert_eq!(
        load_fault(&["RETURN_VALUE", "RETURN_VALUE", "WRITE_VAR 'é'"]),
        LoadFault::Syntax {
            line: 3,
            fault: SyntaxFault::BadIdentifier(VariableFault::NotAscii)
        }
    );
}

#[test]
fn load_rejects_missing_return() {
    assert_eq!(load_fault(&[]), LoadFault::MissingReturn);
    assert_eq!(load_fault(&["", "  "]), LoadFault::MissingReturn);
    assert_eq!(load_fault(&["LOAD_VAL 1"]), LoadFault::MissingReturn);
    assert_eq!(load_fault(&["LABEL end"]), LoadFault::MissingReturn);
    assert_eq!(load_fault(&["LOAD_VAL 1", "LOAD_VAL 2", "ADD"]), LoadFault::MissingReturn);
}

#[test]
fn load_rejects_duplicated_return() {
    assert_eq!(load_fault(&["RETURN_VALUE", "RETURN_VALUE"]), LoadFault::MisplacedReturn);
    assert_eq!(
        load_fault(&["LOAD_VAL 1", "RETURN_VALUE", "LOAD_VAL 2", "RETURN_VALUE"]),
        LoadFault::MisplacedReturn
    );
}

#[test]
fn load_rejects_return_that_is_not_last() {
    assert_eq!(load_fault(&["RETURN_VALUE", "LOAD_VAL 1"]), LoadFault::MisplacedReturn);
    assert_eq!(
        load_fault(&["LOAD_VAL 1", "RETURN_VALUE", "ADD"]),
        LoadFault::MisplacedReturn
    );
}

#[test]
fn load_accepts_lone_return() {
    let program = byte_code::load(&lines(&["RETURN_VALUE"])).unwrap();
    assert_eq!(program.len(), 1);
    assert_eq!(program.instruction(0), Some(&Instruction::Return));
    assert_eq!(program.instruction(1), None);
    let program = byte_code::load(&lines(&["", "  RETURN_VALUE  ", "", "LABEL after"])).unwrap();
    assert_eq!(program.len(), 1);
    assert_eq!(program.label("after"), Some(1));
}

#[test]
fn load_keeps_instructions_in_order() {
    let program = byte_code::load(&lines(&[
        "LOAD_VAL 2",
        "",
        "WRITE_VAR 'X'",
        "READ_VAR 'x'",
        "CMP -1",
        "JMP_LE there",
        "JMP there",
        "ADD",
        "SUB",
        "MULTIPLY",
        "DIVIDE",
        "LABEL there",
        "RETURN_VALUE",
    ]))
    .unwrap();
    assert_eq!(program.len(), 11);
    assert_eq!(program.instruction(0), Some(&Instruction::LoadValue(2)));
    assert_eq!(program.instruction(1), Some(&Instruction::WriteVar("x".to_string())));
    assert_eq!(program.instruction(2), Some(&Instruction::ReadVar("x".to_string())));
    assert_eq!(program.instruction(3), Some(&Instruction::Compare(-1)));
    assert_eq!(program.instruction(4), Some(&Instruction::JumpIfNegative("there".to_string())));
    assert_eq!(program.instruction(5), Some(&Instruction::Jump("there".to_string())));
    assert_eq!(program.instruction(6), Some(&Instruction::Add));
    assert_eq!(program.instruction(7), Some(&Instruction::Subtract));
    assert_eq!(program.instruction(8), Some(&Instruction::Multiply));
    assert_eq!(program.instruction(9), Some(&Instruction::Divide));
    assert_eq!(program.instruction(10), Some(&Instruction::Return));
    assert_eq!(program.instruction(11), None);
    assert_eq!(program.label("there"), Some(10));
    assert_eq!(program.label("There"), None);
}

#[test]
fn load_points_labels_at_the_next_instruction() {
    let program = byte_code::load(&lines(&[
        "LABEL start",
        "LABEL also_start",
        "LOAD_VAL 1",
        "",
        "LABEL second",
        "LOAD_VAL 2",
        "ADD",
        "LABEL last",
        "RETURN_VALUE",
        "LABEL past",
    ]))
    .unwrap();
    assert_eq!(program.len(), 4);
    assert_eq!(program.label("start"), Some(0));
    assert_eq!(program.label("also_start"), Some(0));
    assert_eq!(program.label("second"), Some(1));
    assert_eq!(program.label("last"), Some(3));
    assert_eq!(program.label("past"), Some(4));
    assert_eq!(program.label("missing"), None);
}

#[test]
fn load_lets_a_later_label_replace_an_earlier_one() {
    let program = byte_code::load(&lines(&[
        "LABEL here",
        "LOAD_VAL 1",
        "LABEL here",
        "RETURN_VALUE",
    ]))
    .unwrap();
    assert_eq!(program.label("here"), Some(1));
}

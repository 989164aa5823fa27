use exprtk_rs::{
    c_string, is_valid_name, CompileOutcome, Compilation, ErrorRecord, InvalidName, ParseError,
    ParseErrorKind, StringValue, SymbolTable,
};

fn symbol_error_record(token_value: &str, diagnostic: &str) -> ErrorRecord {
    ErrorRecord {
        is_err: true,
        mode: 1,
        token_type: "SYMBOL".to_string(),
        token_value: token_value.to_string(),
        diagnostic: diagnostic.to_string(),
        error_line: String::new(),
        line_no: 0,
        column_no: 0,
    }
}

#[test]
fn direct_compile_success_keeps_formula_and_table() {
    let mut s = SymbolTable::new();
    s.add_variable("a", f64::to_bits(0.0)).unwrap().unwrap();
    let session = Compilation::begin("a + a / 2", s).unwrap();
    let (expr, vars) = session.finish(CompileOutcome::Accepted).unwrap();
    assert_eq!(expr.formula().as_str(), "a + a / 2");
    assert!(vars.is_empty());
    assert_eq!(expr.symbols().variable_count(), 1);
    assert_eq!(expr.symbols().get_var_id("a"), Ok(Some(0)));
}

#[test]
fn formula_with_null_byte_is_rejected_locally() {
    let s = SymbolTable::new();
    let err = match Compilation::begin("a \u{0} b", s) {
        Err(e) => e,
        Ok(_) => panic!("Should fail!"),
    };
    assert_eq!(err.kind, ParseErrorKind::Syntax);
    assert_eq!(err.token_value, "a \u{0} b".to_string());
    assert_eq!(
        err.message,
        "Non-ASCII character or null byte found in formula".to_string()
    );
    assert_eq!(err.token_type, "".to_string());
    assert_eq!(err.line, "".to_string());
    assert_eq!(err.line_no, 1);
    assert_eq!(err.column_no, 1);
}

#[test]
fn resolver_records_unknown_variables_in_encounter_order() {
    let mut session = Compilation::begin("a + b", SymbolTable::new()).unwrap();
    assert_eq!(session.resolve_new_variable("a"), Ok(0));
    assert_eq!(session.resolve_new_variable("b"), Ok(1));
    let (expr, vars) = session.finish(CompileOutcome::Accepted).unwrap();
    assert_eq!(vars, vec![("a".to_string(), 0), ("b".to_string(), 1)]);
    assert_eq!(expr.symbols().variable_count(), 2);
    assert_eq!(f64::from_bits(expr.symbols().value(0)), 0.0);
    assert_eq!(f64::from_bits(expr.symbols().value(1)), 0.0);
}

#[test]
fn resolver_rejects_invalid_name() {
    let mut session = Compilation::begin("x + 1", SymbolTable::new()).unwrap();
    assert_eq!(
        session.resolve_new_variable("caf\u{e9}"),
        Err(InvalidName("caf\u{e9}".to_string()))
    );
    let (expr, vars) = session.finish(CompileOutcome::Accepted).unwrap();
    assert!(vars.is_empty());
    assert_eq!(expr.symbols().variable_count(), 0);
}

#[test]
fn undefined_symbol_failure_is_decoded() {
    let mut s = SymbolTable::new();
    s.add_variable("a", f64::to_bits(1.0)).unwrap().unwrap();
    let session = Compilation::begin("a + 1 + b", s).unwrap();
    let record = symbol_error_record("b", "ERR184 - Undefined symbol: 'b'");
    let e = match session.finish(CompileOutcome::Rejected(record)) {
        Err(e) => e,
        Ok(_) => panic!("Should fail!"),
    };
    assert_eq!(e.kind, ParseErrorKind::Syntax);
    assert_eq!(e.token_type, "SYMBOL".to_string());
    assert_eq!(e.token_value, "b".to_string());
    assert!(e.message.ends_with(" - Undefined symbol: 'b'"));
    assert_eq!(e.line, "".to_string());
    assert_eq!(e.line_no, 0);
    assert_eq!(e.column_no, 0);
}

#[test]
fn every_error_class_is_decoded() {
    let cases = [
        (0, ParseErrorKind::Unknown),
        (1, ParseErrorKind::Syntax),
        (2, ParseErrorKind::Token),
        (3, ParseErrorKind::Numeric),
        (4, ParseErrorKind::Symtab),
        (5, ParseErrorKind::Lexer),
        (6, ParseErrorKind::Helper),
    ];
    for (code, kind) in cases {
        assert_eq!(ParseErrorKind::from_code(code), Some(kind));
    }
    assert_eq!(ParseErrorKind::from_code(7), None);
    assert_eq!(ParseErrorKind::from_code(-1), None);
}

#[test]
fn error_record_decoding() {
    let mut record = symbol_error_record("b", "diag");
    record.mode = 4;
    record.line_no = 3;
    record.column_no = 9;
    let e = ParseError::from_record(&record).unwrap();
    assert_eq!(e.kind, ParseErrorKind::Symtab);
    assert_eq!(e.token_type, "SYMBOL".to_string());
    assert_eq!(e.token_value, "b".to_string());
    assert_eq!(e.message, "diag".to_string());
    assert_eq!(e.line_no, 3);
    assert_eq!(e.column_no, 9);

    let clean = ErrorRecord {
        is_err: false,
        mode: 0,
        token_type: String::new(),
        token_value: String::new(),
        diagnostic: String::new(),
        error_line: String::new(),
        line_no: 0,
        column_no: 0,
    };
    assert!(ParseError::from_record(&clean).is_none());
}

#[test]
fn simple_syntax_error_fields() {
    let e = ParseError::simple_syntax("a + b", "bad input");
    assert_eq!(e.kind, ParseErrorKind::Syntax);
    assert_eq!(e.token_type, "".to_string());
    assert_eq!(e.token_value, "a + b".to_string());
    assert_eq!(e.message, "bad input".to_string());
    assert_eq!(e.line, "".to_string());
    assert_eq!(e.line_no, 1);
    assert_eq!(e.column_no, 1);
}

#[test]
fn expression_clone_recompiles_against_copied_table() {
    let mut s = SymbolTable::new();
    let a_id = s.add_variable("a", f64::to_bits(1.0)).unwrap().unwrap();
    let session = Compilation::begin("a + 1", s).unwrap();
    let (mut expr, _) = session.finish(CompileOutcome::Accepted).unwrap();
    let clone = expr.clone();
    assert_eq!(clone.formula(), expr.formula());
    assert_eq!(clone.symbols().value(a_id), f64::to_bits(1.0));
    expr.symbols_mut().set_value(a_id, f64::to_bits(7.0));
    assert_eq!(expr.symbols().value(a_id), f64::to_bits(7.0));
    assert_eq!(clone.symbols().value(a_id), f64::to_bits(1.0));
}

#[test]
fn name_validation() {
    assert!(is_valid_name("abc_1"));
    assert!(is_valid_name("a b"));
    assert!(!is_valid_name("a\u{0}"));
    assert!(!is_valid_name("caf\u{e9}"));
}

#[test]
fn c_string_appends_terminator_or_rejects_null() {
    assert_eq!(c_string("ab"), Ok(vec![b'a', b'b', 0]));
    assert_eq!(c_string(""), Ok(vec![0]));
    assert_eq!(c_string("a\u{0}b"), Err(InvalidName("a\u{0}b".to_string())));
}

#[test]
fn string_value_roundtrip() {
    let mut v = StringValue::new(b"hello");
    assert_eq!(v.get().as_slice(), b"hello");
    assert_eq!(v.len(), 5);
    v.set(b"world!");
    assert_eq!(v.get().as_slice(), b"world!");
    let w = v.clone();
    v.set(b"x");
    assert_eq!(w.get().as_slice(), b"world!");
    assert_eq!(v.get().as_slice(), b"x");
}

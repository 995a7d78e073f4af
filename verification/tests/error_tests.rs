use rlox::error::LoxError;

#[test]
fn error_texts() {
    assert_eq!(
        LoxError::ParserError("x".to_string(), 12, "Expect ';' after value".to_string()).to_text(),
        "[ParserError:L12:x] Expect ';' after value"
    );
    assert_eq!(
        LoxError::ScannerError("@".to_string(), 0, "bad".to_string()).to_text(),
        "[ScannerError:L0:@] bad"
    );
    assert_eq!(
        LoxError::RuntimeError("a".to_string(), 4294967295, "m".to_string()).to_text(),
        "[RuntimeError:L4294967295:a] m"
    );
    assert_eq!(
        LoxError::SemanticError("b".to_string(), 105, "n".to_string()).to_text(),
        "[SemanticError:L105:b] n"
    );
    assert_eq!(
        LoxError::Break(3).to_text(),
        "[Improper break:L3] break statements allowed only inside loops."
    );
    assert_eq!(
        LoxError::Continue(70).to_text(),
        "[Improper continue:L70] continue statements allowed only inside loops."
    );
}

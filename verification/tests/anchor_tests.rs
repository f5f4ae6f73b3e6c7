use contextual_anchor::anchor::{ContextualAnchor, ValidationError};

#[test]
fn basic_validation_passes() {
    let a = ContextualAnchor {
        path: "src/lib.rs".into(),
        context_str: "fn example(foo: i32) -> i32 { foo + 1 }".into(),
        token: "foo".into(),
        index: Some(1),
    };
    assert!(a.validate_basic().is_ok());
    let occ = a.token_occurrences_in_context();
    assert_eq!(occ.len(), 2);
}

#[test]
fn missing_token_fails() {
    let a = ContextualAnchor {
        path: "src/lib.rs".into(),
        context_str: "something".into(),
        token: "".into(),
        index: None,
    };
    assert_eq!(
        a.validate_basic().unwrap_err(),
        ValidationError::MissingToken
    );
}

#[test]
fn context_without_token_fails() {
    let a = ContextualAnchor {
        path: "src/lib.rs".into(),
        context_str: "some other text".into(),
        token: "needle".into(),
        index: None,
    };
    match a.validate_basic() {
        Err(ValidationError::ContextDoesNotContainToken { token, .. }) => {
            assert_eq!(token, "needle")
        }
        other => panic!("unexpected validation result: {:?}", other),
    }
}

#[test]
fn invalid_index_fails() {
    let a = ContextualAnchor {
        path: "src/lib.rs".into(),
        context_str: "token token".into(),
        token: "token".into(),
        index: Some(0),
    };
    assert_eq!(
        a.validate_basic().unwrap_err(),
        ValidationError::InvalidIndex(0)
    );
}

#[test]
fn missing_context_fails() {
    let a = ContextualAnchor {
        path: "src/lib.rs".into(),
        context_str: "".into(),
        token: "x".into(),
        index: None,
    };
    assert_eq!(
        a.validate_basic().unwrap_err(),
        ValidationError::MissingContext
    );
}

#[test]
fn token_occurrences_are_increasing_and_non_overlapping() {
    let a = ContextualAnchor {
        path: "a.rs".into(),
        context_str: "foo bar foo".into(),
        token: "foo".into(),
        index: None,
    };
    let occ = a.token_occurrences_in_context();
    assert_eq!(occ, vec![0, 8]);
}

#[test]
fn overlapping_occurrences_are_not_double_counted() {
    let a = ContextualAnchor {
        path: "a.rs".into(),
        context_str: "aaaa".into(),
        token: "aa".into(),
        index: None,
    };
    assert_eq!(a.token_occurrences_in_context(), vec![0, 2]);
}

#[test]
fn empty_token_has_no_occurrences() {
    let a = ContextualAnchor {
        path: "a.rs".into(),
        context_str: "abc".into(),
        token: "".into(),
        index: None,
    };
    assert_eq!(a.token_occurrences_in_context(), Vec::<usize>::new());
}

#[test]
fn earlier_checks_win_over_the_zero_index_check() {
    // A zero index is reported as `InvalidIndex` only once the structural
    // checks on the context and token have passed.
    let a = ContextualAnchor {
        path: "src/lib.rs".into(),
        context_str: "".into(),
        token: "x".into(),
        index: Some(0),
    };
    assert_eq!(
        a.validate_basic().unwrap_err(),
        ValidationError::MissingContext
    );
}

#[test]
fn non_empty_contained_token_with_sane_index_passes() {
    let a = ContextualAnchor {
        path: "src/lib.rs".into(),
        context_str: "let value = value + 1;".into(),
        token: "value".into(),
        index: None,
    };
    assert!(a.validate_basic().is_ok());
}

#[test]
fn validation_error_messages_render_exactly() {
    assert_eq!(
        ValidationError::MissingContext.message(),
        "context_str is empty"
    );
    assert_eq!(ValidationError::MissingToken.message(), "token is empty");
    assert_eq!(
        ValidationError::ContextDoesNotContainToken {
            context: "some other text".into(),
            token: "needle".into(),
        }
        .message(),
        "context_str does not contain token `needle`"
    );
    assert_eq!(
        ValidationError::InvalidIndex(0).message(),
        "index must be 1-based and >= 1 (got 0)"
    );
}

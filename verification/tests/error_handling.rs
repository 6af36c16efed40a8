use myquat::MyQuatError;
use myquat::error_handling::{
    create_enhanced_error, timestamp_text, CircuitErrorKind, ConfigurationErrorKind, GateErrorKind, PerformanceErrorKind, ErrorCategory, ErrorHandler, ErrorHandlerConfig, ErrorSeverity,
    ErrorStatistics, HardwareErrorKind, RecoveryAction, RecoveryStrategy, RecoveryStrategyType,
};

#[test]
fn test_error_categories() {
    let circuit_error = ErrorCategory::Circuit(CircuitErrorKind::InvalidQubitIndex {
        qubit: 5,
        max_qubits: 4,
    });

    assert!(matches!(circuit_error, ErrorCategory::Circuit(_)));
}

#[test]
fn test_error_severity_ordering() {
    assert!(ErrorSeverity::Fatal > ErrorSeverity::Critical);
    assert!(ErrorSeverity::Critical > ErrorSeverity::Error);
    assert!(ErrorSeverity::Error > ErrorSeverity::Warning);
    assert!(ErrorSeverity::Warning > ErrorSeverity::Info);
}

#[test]
fn test_error_context_creation() {
    let context = create_enhanced_error(
        ErrorCategory::Circuit(CircuitErrorKind::InvalidQubitIndex { qubit: 5, max_qubits: 4 }),
        "Invalid qubit index",
        ErrorSeverity::Error,
    );
    assert_eq!(context.message, "Invalid qubit index");
    assert_eq!(context.severity, ErrorSeverity::Error);
    assert_eq!(context.recovery_suggestions.len(), 0);
    assert!(!context.timestamp.is_empty());
    assert_eq!(context.location.as_ref().unwrap().file, "unknown");
}

#[test]
fn severity_text_and_rank() {
    assert_eq!(ErrorSeverity::Warning.to_string(), "WARNING");
    assert!(ErrorSeverity::Info.rank() < ErrorSeverity::Fatal.rank());
}

#[test]
fn recovery_actions_per_strategy() {
    match RecoveryStrategyType::Retry.action() {
        RecoveryAction::Retry { max_attempts, delay_ms } => {
            assert_eq!(max_attempts, 3);
            assert_eq!(delay_ms, 100);
        }
        _ => panic!("expected retry"),
    }
    match RecoveryStrategyType::Skip.action() {
        RecoveryAction::Skip { reason } => assert_eq!(reason, "Operation not critical"),
        _ => panic!("expected skip"),
    }
}

#[test]
fn error_text_matches_messages() {
    let e = MyQuatError::InvalidQubitIndex { index: 3, num_qubits: 2 };
    assert_eq!(e.to_string(), "Invalid qubit index: 3 (circuit has 2 qubits)");
    assert_eq!(
        MyQuatError::circuit_error("boom").to_string(),
        "Circuit construction error: boom"
    );
    assert_eq!(
        MyQuatError::MatrixDimensionMismatch { expected: 4, actual: 2 }.to_string(),
        "Matrix dimension mismatch: expected 4, got 2"
    );
}

#[test]
fn test_error_handler_creation() {
    let handler = ErrorHandler::default();
    assert!(handler.config.auto_recovery);
    assert_eq!(handler.config.max_recovery_attempts, 3);
    assert!(handler.strategies.len() > 0);
}

#[test]
fn test_recovery_strategy() {
    let strategy = RecoveryStrategy {
        name: "test_strategy".to_string(),
        description: "Test recovery".to_string(),
        strategy_type: RecoveryStrategyType::Skip,
        success_probability: 0.5f64.to_bits(),
    };

    assert_eq!(strategy.name, "test_strategy");
    assert_eq!(f64::from_bits(strategy.success_probability), 0.5);
    assert_eq!(strategy.strategy_type, RecoveryStrategyType::Skip);
}

#[test]
fn test_error_statistics() {
    let mut stats = ErrorStatistics::default();
    assert_eq!(stats.total_errors, 0);
    assert!(stats.errors_by_category.is_empty());

    stats.total_errors = 10;
    stats.errors_by_category.push(("circuit".to_string(), 5));

    assert_eq!(stats.total_errors, 10);
    assert_eq!(stats.errors_by_category.iter().find(|(k, _)| k == "circuit").map(|(_, v)| v), Some(&5));
}

fn strategy(name: &str, t: RecoveryStrategyType, p: f64) -> RecoveryStrategy {
    RecoveryStrategy { name: name.to_string(), description: String::new(), strategy_type: t, success_probability: p.to_bits() }
}

#[test]
fn handled_errors_are_counted_and_get_their_strategies() {
    let mut handler = ErrorHandler::default();
    let category = ErrorCategory::Hardware(HardwareErrorKind::DeviceUnavailable { device: "qpu".to_string(), status: "offline".to_string() });
    let context = create_enhanced_error(category.clone(), "backend down", ErrorSeverity::Critical);
    let name = format!("{:?}", category);
    let e = handler.handle_error(MyQuatError::circuit_error("down"), context.clone());
    assert_eq!(e.recovery_strategies.len(), 1);
    assert_eq!(e.recovery_strategies[0].name, "hardware_fallback");
    handler.handle_error(MyQuatError::circuit_error("down"), context);
    assert_eq!(handler.statistics().total_errors, 2);
    assert_eq!(handler.statistics().errors_by_category, vec![(name, 2)]);
    assert_eq!(handler.statistics().errors_by_severity, vec![("CRITICAL".to_string(), 2)]);

    let io = create_enhanced_error(
        ErrorCategory::Circuit(CircuitErrorKind::InvalidQubitIndex { qubit: 1, max_qubits: 0 }),
        "bad",
        ErrorSeverity::Info,
    );
    let quiet = ErrorHandlerConfig { collect_statistics: false, ..ErrorHandlerConfig::default() };
    let mut silent = ErrorHandler::new(quiet);
    let e = silent.handle_error(MyQuatError::circuit_error("bad"), io);
    assert_eq!(e.recovery_strategies[0].name, "circuit_fallback");
    assert_eq!(silent.statistics().total_errors, 0);
}

#[test]
fn recovery_takes_the_most_promising_strategy() {
    let mut handler = ErrorHandler::default();
    let context = create_enhanced_error(
        ErrorCategory::Circuit(CircuitErrorKind::InvalidQubitIndex { qubit: 1, max_qubits: 0 }),
        "bad",
        ErrorSeverity::Error,
    );
    let mut e = handler.handle_error(MyQuatError::circuit_error("bad"), context);
    e.recovery_strategies = vec![
        strategy("a", RecoveryStrategyType::Skip, 0.4),
        strategy("b", RecoveryStrategyType::Abort, 0.95),
        strategy("c", RecoveryStrategyType::Retry, 0.95),
        strategy("d", RecoveryStrategyType::Degrade, -1.0),
    ];
    match handler.attempt_recovery(&e).unwrap() {
        RecoveryAction::Abort { cleanup_actions } => assert_eq!(cleanup_actions, vec!["release_resources".to_string()]),
        other => panic!("unexpected action {:?}", other),
    }
    e.recovery_strategies.clear();
    assert_eq!(handler.attempt_recovery(&e).unwrap_err().to_string(), "Circuit construction error: All recovery strategies failed");
    handler.config.auto_recovery = false;
    assert_eq!(handler.attempt_recovery(&e).unwrap_err().to_string(), "Circuit construction error: Auto-recovery disabled");
}

#[test]
fn registering_again_replaces_the_strategy() {
    let mut handler = ErrorHandler::default();
    handler.register_strategy("circuit".to_string(), strategy("again", RecoveryStrategyType::Skip, 0.1));
    handler.register_strategy("io".to_string(), strategy("io_skip", RecoveryStrategyType::Skip, 0.3));
    assert_eq!(handler.strategies.len(), 4);
    assert_eq!(handler.strategies[0].1.name, "again");
    let found = handler.find_recovery_strategies(&ErrorCategory::Circuit(CircuitErrorKind::InvalidQubitIndex {
        qubit: 0,
        max_qubits: 0,
    }));
    assert_eq!(found.len(), 1);
    assert_eq!(found[0].name, "again");
}

#[test]
fn timestamp_of_a_clock_reading_is_its_rfc3339_text() {
    assert_eq!(timestamp_text(Some(1_431_648_000u128 * 1_000_000_000)), "2015-05-15T00:00:00+00:00");
    assert_eq!(timestamp_text(Some(1_500_000_000)), "1970-01-01T00:00:01.500+00:00");
    assert_eq!(timestamp_text(None), "1970-01-01T00:00:00+00:00");
    assert_eq!(timestamp_text(Some(u128::MAX / 2)), "1970-01-01T00:00:00+00:00");
}

#[test]
fn enhanced_error_has_a_timestamp() {
    let e = create_enhanced_error(ErrorCategory::Circuit(CircuitErrorKind::InvalidQubitIndex { qubit: 1, max_qubits: 0 }), "boom", ErrorSeverity::Error);
    assert!(e.timestamp.contains('T'));
}

#[test]
fn category_debug_text_is_the_derived_debug_text() {
    let cases = vec![
        ErrorCategory::Circuit(CircuitErrorKind::InvalidQubitIndex { qubit: 5, max_qubits: 4 }),
        ErrorCategory::Hardware(HardwareErrorKind::ConnectivityViolation { qubits: vec![0, 12, 3], topology: "line \"a\"\n".to_string() }),
        ErrorCategory::Hardware(HardwareErrorKind::ConnectivityViolation { qubits: vec![], topology: String::new() }),
        ErrorCategory::Gate(GateErrorKind::MatrixDimensionMismatch { expected: (2, 2), actual: (4, 1) }),
        ErrorCategory::Performance(PerformanceErrorKind::TimeoutExceeded { operation: "run".to_string(), timeout_ms: u64::MAX, elapsed_ms: 0 }),
        ErrorCategory::Configuration(ConfigurationErrorKind::ConfigurationConflict { keys: vec!["a".to_string(), "b\\".to_string()], reason: "x".to_string() }),
        ErrorCategory::Configuration(ConfigurationErrorKind::ConfigurationConflict { keys: vec![], reason: "\u{7f}\u{301}".to_string() }),
    ];
    for c in cases {
        assert_eq!(myquat::error_text::category_debug_text(&c), format!("{:?}", c));
    }
}

use erusert::overpanic::{
    cause_description, digests_contradict, halt_message, PanicCause, PanicMonitor, PanicTrigger,
};

/// One reasoning cycle as the program reports it: the temperature decides
/// overheating (above 92 degrees) and the baseline moves a tenth of the way
/// towards the cycle's time.
fn check(
    monitor: &mut PanicMonitor,
    thermal: f32,
    processing_ms: u64,
    digest: &str,
    prev: Option<&str>,
) -> Option<PanicTrigger> {
    let next_baseline =
        (monitor.baseline_ms() as f64 * 0.9 + processing_ms as f64 * 0.1) as u64;
    monitor.check(thermal > 92.0, processing_ms, digest, prev, next_baseline)
}

#[test]
fn overpanic_triggers_on_sustained_high_thermal() {
    let mut monitor = PanicMonitor::new();
    let result = check(&mut monitor, 93.0, 50, "test digest", None);
    assert!(result.is_some(), "Should trigger at 93°C");
    let op = result.unwrap();
    assert!(matches!(op.cause, PanicCause::ThermalMeltdown));
}

#[test]
fn overpanic_does_not_trigger_on_normal_thermal() {
    let mut monitor = PanicMonitor::new();
    let result = check(&mut monitor, 55.0, 50, "test digest", None);
    assert!(result.is_none(), "Should NOT trigger at 55°C");
}

#[test]
fn overpanic_triggers_on_contradiction_streak() {
    let mut monitor = PanicMonitor::new();

    check(&mut monitor, 50.0, 50, "Short calm analysis of the topic.", None);
    check(&mut monitor, 50.0, 50, "MASSIVE CHAOTIC UNRELATED WALL OF TEXT THAT CONTRADICTS EVERYTHING PREVIOUSLY SAID ABOUT THIS ENTIRELY DIFFERENT SUBJECT WITH NO RELATION WHATSOEVER TO THE ORIGINAL QUERY AT ALL ABSOLUTELY NOTHING IN COMMON", Some("Short calm analysis of the topic."));
    check(&mut monitor, 50.0, 50, "ANOTHER COMPLETELY DIFFERENT GIGANTIC BLOCK OF TEXT THAT SHARES ZERO WORDS WITH ANYTHING BEFORE IT AND IS ABOUT SOMETHING ELSE ENTIRELY LIKE BANANAS OR SPACECRAFT OR WHATEVER", Some("MASSIVE CHAOTIC UNRELATED WALL OF TEXT"));

    let result = check(
        &mut monitor,
        50.0, 50,
        "YET ANOTHER TOTALLY UNRELATED MASSIVE TEXT BLOCK ABOUT OCEANS OR MOUNTAINS OR SOMETHING THAT HAS ABSOLUTELY NOTHING TO DO WITH PREVIOUS DIGESTS",
        Some("ANOTHER COMPLETELY DIFFERENT GIGANTIC BLOCK"),
    );

    assert!(result.is_some(), "3+ contradictions should trigger Over-Panic");
}

#[test]
fn overpanic_triggers_on_processing_seizure() {
    let mut monitor = PanicMonitor::new();

    for _ in 0..10 {
        check(&mut monitor, 50.0, 50, "normal", None);
    }

    let result = check(&mut monitor, 50.0, 5000, "seizure test", Some("normal"));
    assert!(result.is_some(), "10x baseline should trigger seizure panic");
}

#[test]
fn overpanic_triggers_on_trust_collapse() {
    let mut monitor = PanicMonitor::new();
    for _ in 0..5 {
        monitor.record_correction();
    }
    let result = monitor.check_trust_collapse();
    assert!(result.is_some(), "5 corrections should trigger trust collapse");
}

#[test]
fn four_corrections_do_not_collapse_trust() {
    let mut monitor = PanicMonitor::new();
    for _ in 0..4 {
        monitor.record_correction();
    }
    assert!(monitor.check_trust_collapse().is_none());
    monitor.record_correction();
    let t = monitor.check_trust_collapse().unwrap();
    assert!(matches!(t.cause, PanicCause::TrustCollapse { corrections: 5 }));
    assert_eq!(t.session_errors, 5);
}

#[test]
fn seizure_reports_expected_and_actual_time() {
    let mut monitor = PanicMonitor::new();
    let t = check(&mut monitor, 50.0, 501, "slow", None).unwrap();
    match t.cause {
        PanicCause::ProcessingSeizure { expected_ms, actual_ms } => {
            assert_eq!(expected_ms, 50);
            assert_eq!(actual_ms, 501);
        }
        other => panic!("expected a seizure, got {:?}", other),
    }
    assert_eq!(monitor.baseline_ms(), 95);
    assert_eq!(monitor.last_digest(), "slow");
    let mut calm = PanicMonitor::new();
    assert!(check(&mut calm, 50.0, 500, "fine", None).is_none());
}

#[test]
fn third_failed_fetch_halts() {
    let mut monitor = PanicMonitor::new();
    assert!(monitor.record_corrupt_fetch("a").is_none());
    assert!(monitor.record_corrupt_fetch("b").is_none());
    let t = monitor.record_corrupt_fetch("https://bad.example").unwrap();
    match &t.cause {
        PanicCause::CorruptedInput { url } => assert_eq!(url, "https://bad.example"),
        other => panic!("expected corrupted input, got {:?}", other),
    }
    assert_eq!(t.session_errors, 3);
}

#[test]
fn agreeing_digest_resets_streak() {
    let mut monitor = PanicMonitor::new();
    check(&mut monitor, 50.0, 50, "alpha beta gamma", Some("one two three"));
    check(&mut monitor, 50.0, 50, "delta epsilon", Some("alpha beta gamma"));
    assert_eq!(monitor.contradiction_streak(), 2);
    check(&mut monitor, 50.0, 50, "delta epsilon zeta", Some("delta epsilon"));
    assert_eq!(monitor.contradiction_streak(), 0);
}

#[test]
fn meltdown_keeps_the_streak() {
    let mut monitor = PanicMonitor::new();
    check(&mut monitor, 50.0, 50, "b", Some("a"));
    let t = check(&mut monitor, 95.0, 50, "c", Some("b")).unwrap();
    assert!(matches!(t.cause, PanicCause::ThermalMeltdown));
    assert_eq!(monitor.contradiction_streak(), 1);
    assert_eq!(t.session_errors, 1);
}

#[test]
fn contradiction_rule() {
    assert!(digests_contradict("a b c d", "a x y z"));
    assert!(!digests_contradict("a b c d", "a b x y"));
    assert!(!digests_contradict("", "anything"));
    assert!(digests_contradict("word", ""));
    assert!(!digests_contradict(
        "Context absorbed: 5 words. Structure feels narrative. Single perspective.",
        "Context absorbed: 7 words. Structure feels data-rich. Single perspective."
    ));
}

#[test]
fn cause_wording() {
    assert_eq!(
        cause_description(&PanicCause::ThermalMeltdown, "94.0"),
        "Virtual thermal meltdown (94.0\u{b0}C). Silicon cannot think at this heat."
    );
    assert_eq!(
        cause_description(&PanicCause::CognitiveContradiction { count: 3 }, "50.0"),
        "3 contradictory outputs in sequence. My reasoning is untrustworthy."
    );
    assert_eq!(
        cause_description(&PanicCause::ProcessingSeizure { expected_ms: 50, actual_ms: 5000 }, "50.0"),
        "Processing seizure: expected 50ms, took 5000ms. Cognitive loop detected."
    );
    assert_eq!(
        cause_description(&PanicCause::CorruptedInput { url: "u".to_string() }, "50.0"),
        "Corrupted input from u. Cannot distinguish signal from noise."
    );
    assert_eq!(
        cause_description(&PanicCause::TrustCollapse { corrections: 5 }, "50.0"),
        "Trust collapse: corrected 5 times this session. I am failing you."
    );
    assert_eq!(
        halt_message(&PanicCause::ThermalMeltdown, "94.0"),
        "OVER-PANIC: Virtual thermal meltdown (94.0\u{b0}C). Silicon cannot think at this heat."
    );
}

use being32::eps::{GateStatus, RitualGate};

/// The two judgements the ritual gate is given, made as the substrate makes them on
/// its continuous channels: the budget against the metabolic threshold 0.4 and
/// the settlement mean(coherence, trust, energy) against the band [0.2, 0.9].
fn judgements(coherence: f32, trust: f32, meta_energy: f32) -> (bool, bool) {
    let settlement = ((coherence + trust + meta_energy) / 3.0).clamp(0.0, 1.0);
    let exhausted = meta_energy < 0.4;
    let unstable = settlement < 0.2 || settlement > 0.9;
    (exhausted, unstable)
}

#[test]
fn gate_opens_in_healthy_state() {
    let mut gate = RitualGate::new();
    let (exhausted, unstable) = judgements(0.8, 0.7, 0.8);
    let (open, status) = gate.advance(exhausted, unstable);
    assert!(open, "{}", status.reason());
    assert_eq!(status, GateStatus::GateOpen);
    assert_eq!(status.reason(), "GATE_OPEN");
}

#[test]
fn gate_closes_on_metabolic_exhaustion() {
    let mut gate = RitualGate::new();
    let (exhausted, unstable) = judgements(0.8, 0.7, 0.1);
    let (open, status) = gate.advance(exhausted, unstable);
    assert!(!open);
    assert_eq!(status.reason(), "METABOLIC_EXHAUSTION");
}

#[test]
fn gate_closes_on_settlement_overload() {
    let mut gate = RitualGate::new();
    let (exhausted, unstable) = judgements(1.0, 1.0, 1.0);
    let (open, status) = gate.advance(exhausted, unstable);
    assert!(!open);
    assert_eq!(status.reason(), "SETTLEMENT_INSTABILITY");
}

#[test]
fn gate_refractory_after_exertion() {
    let mut gate = RitualGate::new();
    let (exhausted, unstable) = judgements(0.8, 0.7, 0.8);
    let (open1, _) = gate.advance(exhausted, unstable);
    assert!(open1);
    let (open2, reason2) = gate.advance(exhausted, unstable);
    assert!(!open2);
    assert_eq!(reason2.reason(), "REFRACTORY_ACTIVE");
}

#[test]
fn healthy_gate_opens_once_per_refractory_period() {
    let mut gate = RitualGate::new();
    assert!(gate.advance(false, false).0);
    for _ in 0..39 {
        assert_eq!(gate.advance(false, false), (false, GateStatus::RefractoryActive));
    }
    assert_eq!(gate.advance(false, false), (true, GateStatus::GateOpen));
    assert_eq!(gate.refractory_remaining(), 40);
}

#[test]
fn exhaustion_is_judged_before_settlement_and_refractory() {
    let mut gate = RitualGate::new();
    gate.exert();
    assert_eq!(gate.check(true, true), (false, GateStatus::MetabolicExhaustion));
    assert_eq!(gate.check(false, true), (false, GateStatus::SettlementInstability));
    assert_eq!(gate.check(false, false), (false, GateStatus::RefractoryActive));
}

#[test]
fn closed_gate_keeps_counting() {
    let mut gate = RitualGate::new();
    gate.exert();
    assert_eq!(gate.refractory_remaining(), 40);
    for _ in 0..10 {
        assert_eq!(gate.advance(true, false).1, GateStatus::MetabolicExhaustion);
    }
    assert_eq!(gate.refractory_remaining(), 30);
    for _ in 0..30 {
        gate.tick();
    }
    assert_eq!(gate.refractory_remaining(), 0);
    assert_eq!(gate.check(false, false), (true, GateStatus::GateOpen));
}

#[test]
fn fresh_gate_clock_saturates() {
    let mut gate = RitualGate::new();
    assert_eq!(gate.refractory_remaining(), 0);
    gate.tick();
    assert_eq!(gate.refractory_remaining(), 0);
    assert_eq!(gate.check(false, false), (true, GateStatus::GateOpen));
}

#[test]
fn zero_period_never_refractory() {
    let mut gate = RitualGate::new();
    gate.refractory_steps = 0;
    assert!(gate.advance(false, false).0);
    assert!(gate.advance(false, false).0);
    assert_eq!(gate.refractory_remaining(), 0);
}

#[test]
fn reasons_are_upper_case_codes() {
    assert_eq!(GateStatus::Uninitialized.reason(), "UNINITIALIZED");
    assert_eq!(GateStatus::MetabolicExhaustion.reason(), "METABOLIC_EXHAUSTION");
    assert_eq!(GateStatus::SettlementInstability.reason(), "SETTLEMENT_INSTABILITY");
    assert_eq!(GateStatus::RefractoryActive.reason(), "REFRACTORY_ACTIVE");
    assert_eq!(GateStatus::GateOpen.reason(), "GATE_OPEN");
}

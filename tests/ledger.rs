use parking_meter::contract::ParkingMeterContract;
use parking_meter::model::{Address, DataKey, Invocation, ParkingEntry, ParkingError, ParkingOperator};
use parking_meter::pricing::{duration_minutes, fee_for_duration, HOUR_IN_SECONDS, STROOPS_PER_XLM};

fn addr(s: &str) -> Address {
    Address::new(s.to_string())
}

fn at(now: u64, signers: &[&Address]) -> Invocation {
    Invocation { now, authorized: signers.iter().map(|a| (*a).clone()).collect() }
}

/// A ledger with admin `GA` and the active operator `GO` at `rate`.
fn ledger_with_operator(rate: i128) -> (ParkingMeterContract, Address, Address) {
    let mut c = ParkingMeterContract::new();
    let a = addr("GA");
    let o = addr("GO");
    c.initialize(&at(0, &[&a]), a.clone()).unwrap();
    c.register_operator(&at(0, &[&a]), o.clone(), "Lot".to_string(), rate).unwrap();
    (c, a, o)
}

#[test]
fn happy_path_scenario() {
    let (mut c, _a, o) = ledger_with_operator(1_000_000);
    let plate = "34ABC1234".to_string();
    assert_eq!(c.create_entry(&at(1000, &[&o]), o.clone(), plate.clone()), Ok(plate.clone()));
    assert_eq!(c.calculate_fee(&at(4600, &[]), &plate), Ok((3600, 1_000_000)));
    assert_eq!(c.complete_payment(&at(4600, &[]), &plate, 1_000_000), Ok(true));
    let e = c.get_entry(&plate).unwrap();
    assert!(e.is_paid);
    assert_eq!(e.exit_time, Some(4600));
    assert_eq!(e.payment_amount, Some(1_000_000));
    assert_eq!(e.entry_time, 1000);
}

#[test]
fn new_entry_is_open_at_now() {
    let (mut c, _a, o) = ledger_with_operator(60);
    let plate = "PLATE".to_string();
    c.create_entry(&at(777, &[&o]), o.clone(), plate.clone()).unwrap();
    let e = c.get_entry(&plate).unwrap();
    assert_eq!(e.entry_time, 777);
    assert!(!e.is_paid);
    assert_eq!(e.exit_time, None);
    assert_eq!(e.payment_amount, None);
}

#[test]
fn duplicate_entry_rejected_state_kept() {
    let (mut c, _a, o) = ledger_with_operator(1_000_000);
    let plate = "34ABC1234".to_string();
    c.create_entry(&at(1000, &[&o]), o.clone(), plate.clone()).unwrap();
    assert_eq!(
        c.create_entry(&at(2000, &[&o]), o.clone(), plate.clone()),
        Err(ParkingError::SessionAlreadyOpen)
    );
    assert_eq!(c.get_entry(&plate).unwrap().entry_time, 1000);
    assert_eq!(c.get_total_entries(), 1);
}

#[test]
fn insufficient_payment_leaves_session_unpaid() {
    let (mut c, _a, o) = ledger_with_operator(1_000_000);
    let plate = "34ABC1234".to_string();
    c.create_entry(&at(1000, &[&o]), o.clone(), plate.clone()).unwrap();
    assert_eq!(
        c.complete_payment(&at(4600, &[]), &plate, 500_000),
        Err(ParkingError::InsufficientPayment)
    );
    let e = c.get_entry(&plate).unwrap();
    assert!(!e.is_paid);
    assert_eq!(e.exit_time, None);
}

#[test]
fn operator_toggle_scenario() {
    let (mut c, a, o) = ledger_with_operator(1_000_000);
    assert_eq!(c.set_operator_status(&at(0, &[&a]), o.clone(), false), Ok(true));
    assert_eq!(
        c.create_entry(&at(10, &[&o]), o.clone(), "P1".to_string()),
        Err(ParkingError::OperatorInactive)
    );
    assert_eq!(c.set_operator_status(&at(0, &[&a]), o.clone(), true), Ok(true));
    assert_eq!(c.create_entry(&at(10, &[&o]), o.clone(), "P1".to_string()), Ok("P1".to_string()));
    let op = c.get_operator(&o).unwrap();
    assert_eq!(op.name, "Lot".to_string());
    assert_eq!(op.hourly_rate, 1_000_000);
}

#[test]
fn admin_rotation_scenario() {
    let mut c = ParkingMeterContract::new();
    let a = addr("GA");
    let b = addr("GB");
    let o = addr("GO");
    c.initialize(&at(0, &[&a]), a.clone()).unwrap();
    assert_eq!(c.update_admin(&at(0, &[&a]), b.clone()), Ok(true));
    assert_eq!(
        c.register_operator(&at(0, &[&a]), o.clone(), "X".to_string(), 1),
        Err(ParkingError::AuthorizationDenied)
    );
    assert!(c.get_operator(&o).is_none());
    assert_eq!(c.register_operator(&at(0, &[&b]), o.clone(), "X".to_string(), 1), Ok(true));
}

#[test]
fn sub_minute_rounding() {
    assert_eq!(duration_minutes(1), 1);
    assert_eq!(fee_for_duration(1, 6_000_000), Some(100_000));
    let (mut c, _a, o) = ledger_with_operator(6_000_000);
    c.create_entry(&at(1000, &[&o]), o.clone(), "R".to_string()).unwrap();
    assert_eq!(c.calculate_fee(&at(1001, &[]), &"R".to_string()), Ok((1, 100_000)));
}

#[test]
fn fee_formula_values() {
    assert_eq!(duration_minutes(0), 0);
    assert_eq!(duration_minutes(60), 1);
    assert_eq!(duration_minutes(61), 2);
    assert_eq!(duration_minutes(u64::MAX), u64::MAX / 60 + 1);
    assert_eq!(fee_for_duration(0, 1_000_000), Some(0));
    assert_eq!(fee_for_duration(61, 60), Some(2));
    assert_eq!(fee_for_duration(90, 100), Some(3));
    assert_eq!(fee_for_duration(60, 59), Some(0));
    assert_eq!(fee_for_duration(60, -59), Some(0));
    assert_eq!(fee_for_duration(120, -61), Some(-2));
    assert_eq!(fee_for_duration(HOUR_IN_SECONDS, STROOPS_PER_XLM), Some(STROOPS_PER_XLM));
}

#[test]
fn fee_overflow_is_reported() {
    assert_eq!(fee_for_duration(u64::MAX, i128::MAX), None);
    let (mut c, _a, o) = ledger_with_operator(i128::MAX);
    c.create_entry(&at(0, &[&o]), o.clone(), "Z".to_string()).unwrap();
    assert_eq!(c.calculate_fee(&at(120, &[]), &"Z".to_string()), Err(ParkingError::ArithmeticOverflow));
    assert_eq!(
        c.complete_payment(&at(120, &[]), &"Z".to_string(), i128::MAX),
        Err(ParkingError::ArithmeticOverflow)
    );
}

#[test]
fn fee_grows_with_time() {
    let (mut c, _a, o) = ledger_with_operator(1_000_000);
    c.create_entry(&at(1000, &[&o]), o.clone(), "M".to_string()).unwrap();
    let mut last = 0i128;
    for now in [1000u64, 1001, 1059, 1060, 1061, 1120, 4600, 10_000] {
        let (_, fee) = c.calculate_fee(&at(now, &[]), &"M".to_string()).unwrap();
        assert!(fee >= last);
        last = fee;
    }
}

#[test]
fn counter_counts_successful_entries() {
    let (mut c, a, o) = ledger_with_operator(60);
    assert_eq!(c.get_total_entries(), 0);
    assert!(!c.has(&DataKey::EntryCount));
    c.create_entry(&at(0, &[&o]), o.clone(), "A".to_string()).unwrap();
    assert_eq!(c.get_total_entries(), 1);
    assert!(c.create_entry(&at(0, &[&o]), o.clone(), "A".to_string()).is_err());
    assert!(c.create_entry(&at(0, &[&a]), o.clone(), "B".to_string()).is_err());
    assert_eq!(c.get_total_entries(), 1);
    c.complete_payment(&at(60, &[]), &"A".to_string(), 1).unwrap();
    assert_eq!(c.get_total_entries(), 1);
    c.create_entry(&at(70, &[&o]), o.clone(), "A".to_string()).unwrap();
    c.create_entry(&at(70, &[&o]), o.clone(), "B".to_string()).unwrap();
    assert_eq!(c.get_total_entries(), 3);
    assert!(c.has(&DataKey::EntryCount));
}

#[test]
fn reads_are_repeatable() {
    let (mut c, _a, o) = ledger_with_operator(60);
    c.create_entry(&at(5, &[&o]), o.clone(), "A".to_string()).unwrap();
    let e1 = c.get_entry(&"A".to_string()).unwrap();
    let e2 = c.get_entry(&"A".to_string()).unwrap();
    assert_eq!(e1.license_plate, e2.license_plate);
    assert_eq!(e1.entry_time, e2.entry_time);
    assert_eq!(e1.is_paid, e2.is_paid);
    let p1 = c.get_operator(&o).unwrap();
    let p2 = c.get_operator(&o).unwrap();
    assert_eq!(p1.address, p2.address);
    assert_eq!(p1.name, p2.name);
    assert_eq!(p1.hourly_rate, p2.hourly_rate);
    assert!(c.get_entry(&"none".to_string()).is_none());
    assert!(c.get_operator(&addr("GX")).is_none());
}

#[test]
fn writes_need_their_principal() {
    let mut c = ParkingMeterContract::new();
    let a = addr("GA");
    let o = addr("GO");
    let stranger = addr("GS");
    assert_eq!(c.initialize(&at(0, &[&stranger]), a.clone()), Err(ParkingError::AuthorizationDenied));
    assert!(!c.has(&DataKey::Admin));
    c.initialize(&at(0, &[&a]), a.clone()).unwrap();
    assert!(c.has(&DataKey::Admin));
    assert_eq!(
        c.register_operator(&at(0, &[&o]), o.clone(), "L".to_string(), 1),
        Err(ParkingError::AuthorizationDenied)
    );
    c.register_operator(&at(0, &[&a]), o.clone(), "L".to_string(), 1).unwrap();
    assert_eq!(c.set_operator_status(&at(0, &[&o]), o.clone(), false), Err(ParkingError::AuthorizationDenied));
    assert_eq!(c.update_admin(&at(0, &[&o]), o.clone()), Err(ParkingError::AuthorizationDenied));
    assert_eq!(
        c.create_entry(&at(0, &[&a]), o.clone(), "P".to_string()),
        Err(ParkingError::AuthorizationDenied)
    );
    assert!(!c.has(&DataKey::Entry("P".to_string())));
    assert!(c.get_operator(&o).unwrap().is_active);
}

#[test]
fn missing_records_are_not_found() {
    let mut c = ParkingMeterContract::new();
    let a = addr("GA");
    let o = addr("GO");
    assert_eq!(c.register_operator(&at(0, &[&a]), o.clone(), "L".to_string(), 1), Err(ParkingError::NotFound));
    assert_eq!(c.update_admin(&at(0, &[&a]), o.clone()), Err(ParkingError::NotFound));
    c.initialize(&at(0, &[&a]), a.clone()).unwrap();
    assert_eq!(c.set_operator_status(&at(0, &[&a]), o.clone(), true), Err(ParkingError::NotFound));
    assert_eq!(c.create_entry(&at(0, &[&o]), o.clone(), "P".to_string()), Err(ParkingError::NotFound));
    assert_eq!(c.calculate_fee(&at(0, &[]), &"P".to_string()), Err(ParkingError::NotFound));
    assert_eq!(c.complete_payment(&at(0, &[]), &"P".to_string(), 5), Err(ParkingError::NotFound));
    assert!(!c.has(&DataKey::Operator(o.clone())));
}

#[test]
fn second_payment_rejected_and_paid_slot_reused() {
    let (mut c, _a, o) = ledger_with_operator(600);
    let plate = "P".to_string();
    c.create_entry(&at(0, &[&o]), o.clone(), plate.clone()).unwrap();
    assert_eq!(c.complete_payment(&at(600, &[]), &plate, 100), Ok(true));
    assert_eq!(c.complete_payment(&at(700, &[]), &plate, 1000), Err(ParkingError::AlreadyPaid));
    assert_eq!(c.get_entry(&plate).unwrap().payment_amount, Some(100));
    c.create_entry(&at(800, &[&o]), o.clone(), plate.clone()).unwrap();
    let e = c.get_entry(&plate).unwrap();
    assert_eq!(e.entry_time, 800);
    assert!(!e.is_paid);
    assert_eq!(e.payment_amount, None);
}

#[test]
fn reregistration_resets_operator() {
    let (mut c, a, o) = ledger_with_operator(60);
    c.set_operator_status(&at(0, &[&a]), o.clone(), false).unwrap();
    c.register_operator(&at(0, &[&a]), o.clone(), "New".to_string(), 120).unwrap();
    let op = c.get_operator(&o).unwrap();
    assert!(op.is_active);
    assert_eq!(op.name, "New".to_string());
    assert_eq!(op.hourly_rate, 120);
}

#[test]
fn reinitialize_by_new_principal() {
    let mut c = ParkingMeterContract::new();
    let a = addr("GA");
    let b = addr("GB");
    c.initialize(&at(0, &[&a]), a.clone()).unwrap();
    c.initialize(&at(0, &[&b]), b.clone()).unwrap();
    assert!(c.update_admin(&at(0, &[&a]), a.clone()).is_err());
    assert_eq!(c.update_admin(&at(0, &[&b]), a.clone()), Ok(true));
}

#[test]
fn error_messages() {
    assert_eq!(ParkingError::SessionAlreadyOpen.message(), "Vehicle already has an active parking session");
    assert_eq!(ParkingError::AlreadyPaid.message(), "Payment already completed");
    assert_eq!(ParkingError::InsufficientPayment.message(), "Insufficient payment amount");
    assert_eq!(ParkingError::OperatorInactive.message(), "Operator is not active");
}

fn operator_record(id: &str, rate: i128, active: bool) -> ParkingOperator {
    ParkingOperator { address: addr(id), name: id.to_string(), hourly_rate: rate, is_active: active }
}

fn open_entry(plate: &str, at_time: u64, op: &str) -> ParkingEntry {
    ParkingEntry {
        license_plate: plate.to_string(),
        entry_time: at_time,
        exit_time: None,
        operator_address: addr(op),
        is_paid: false,
        payment_amount: None,
    }
}

#[test]
fn restore_rebuilds_the_ledger() {
    let ops = vec![operator_record("GO", 60, true), operator_record("GO", 120, false)];
    let entries = vec![open_entry("P", 10, "GO")];
    let c = ParkingMeterContract::restore(Some(addr("GA")), Some(7), &ops, &entries).unwrap();
    assert_eq!(c.get_total_entries(), 7);
    let op = c.get_operator(&addr("GO")).unwrap();
    assert_eq!(op.hourly_rate, 120);
    assert!(!op.is_active);
    assert_eq!(c.get_entry(&"P".to_string()).unwrap().entry_time, 10);
    assert_eq!(c.calculate_fee(&at(70, &[]), &"P".to_string()), Ok((60, 2)));
    assert!(c.has(&DataKey::Admin));
    assert!(c.has(&DataKey::Entry("P".to_string())));
    assert!(c.has(&DataKey::Operator(addr("GO"))));
}

#[test]
fn restore_refuses_inconsistent_records() {
    let ops = vec![operator_record("GO", 60, true)];
    assert!(ParkingMeterContract::restore(None, None, &ops, &vec![open_entry("P", 10, "GX")]).is_none());
    let mut paid_without_exit = open_entry("P", 10, "GO");
    paid_without_exit.is_paid = true;
    paid_without_exit.payment_amount = Some(5);
    assert!(ParkingMeterContract::restore(None, None, &ops, &vec![paid_without_exit]).is_none());
    let mut exit_before_entry = open_entry("P", 10, "GO");
    exit_before_entry.is_paid = true;
    exit_before_entry.exit_time = Some(5);
    exit_before_entry.payment_amount = Some(5);
    assert!(ParkingMeterContract::restore(None, None, &ops, &vec![exit_before_entry]).is_none());
    let c = ParkingMeterContract::restore(None, None, &vec![], &vec![]).unwrap();
    assert_eq!(c.get_total_entries(), 0);
    assert!(!c.has(&DataKey::Admin));
}

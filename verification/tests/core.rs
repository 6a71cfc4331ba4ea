use circuit_synthesis::a_plus_b_eq_c::APlusBEqCCircuit;
use circuit_synthesis::checker::{verify_circuit, Violation};
use circuit_synthesis::field::{Fp, MODULUS};
use circuit_synthesis::layout::{Error, Layouter};
use circuit_synthesis::system::ConstraintSystem;

#[test]
fn test_field_arithmetic() {
    let two = Fp::from_u64(2);
    let three = Fp::from_u64(3);
    assert_eq!(two.add(three), Fp::from_u64(5));
    assert_eq!(three.sub(two), Fp::from_u64(1));
    assert_eq!(two.mul(three), Fp::from_u64(6));
    // wrap-around at the modulus
    let max = Fp::from_u64(MODULUS - 1);
    assert_eq!(max.add(Fp::from_u64(1)), Fp::from_u64(0));
    assert_eq!(Fp::from_u64(MODULUS), Fp::from_u64(0));
    assert_eq!(Fp::from_u64(0).sub(Fp::from_u64(1)), max);
    assert_eq!(max.neg(), Fp::from_u64(1));
    assert!(Fp::from_u64(0).is_zero());
    assert!(!Fp::from_u64(4).is_zero());
}

#[test]
fn test_write_once_cells() {
    let mut meta = ConstraintSystem::new();
    let col = meta.advice_column();
    let mut layouter = Layouter::new(meta, 4);
    layouter.begin_region();
    let first = layouter.assign_advice(col, 0, Some(Fp::from_u64(5)));
    assert!(first.is_ok());
    // re-assigning the same cell fails deterministically
    let second = layouter.assign_advice(col, 0, Some(Fp::from_u64(9)));
    assert_eq!(second.unwrap_err(), Error::AlreadyAssigned);
    let third = layouter.assign_advice(col, 0, Some(Fp::from_u64(5)));
    assert_eq!(third.unwrap_err(), Error::AlreadyAssigned);
    // the stored value is the original one
    assert_eq!(layouter.asg.advice[col.index][0], Some(Fp::from_u64(5)));
}

#[test]
fn test_missing_witness_error() {
    let mut meta = ConstraintSystem::new();
    let col = meta.advice_column();
    let mut layouter = Layouter::new(meta, 4);
    layouter.begin_region();
    let result = layouter.assign_advice(col, 0, None);
    assert_eq!(result.unwrap_err(), Error::MissingWitness);
    // nothing was written
    assert_eq!(layouter.asg.advice[col.index][0], None);
}

#[test]
fn test_invalid_equality_error() {
    let mut meta = ConstraintSystem::new();
    let src_col = meta.advice_column();
    let dst_col = meta.advice_column();
    // neither column is equality-enabled
    let mut layouter = Layouter::new(meta, 4);
    layouter.begin_region();
    let src = layouter
        .assign_advice(src_col, 0, Some(Fp::from_u64(5)))
        .unwrap();
    let copied = layouter.copy_advice(&src, dst_col, 1);
    assert_eq!(copied.unwrap_err(), Error::InvalidEquality);
}

#[test]
fn test_configure_idempotent() {
    let mut first = ConstraintSystem::new();
    let c1 = APlusBEqCCircuit::configure(&mut first);
    let mut second = ConstraintSystem::new();
    let c2 = APlusBEqCCircuit::configure(&mut second);
    // same handles
    assert_eq!(c1, c2);
    // structurally identical descriptions
    assert_eq!(first.advice_eq, second.advice_eq);
    assert_eq!(first.instance_eq, second.instance_eq);
    assert_eq!(first.num_fixed, second.num_fixed);
    assert_eq!(first.num_selectors, second.num_selectors);
    assert_eq!(first.gates.len(), second.gates.len());
    assert_eq!(first.gates[0].name, second.gates[0].name);
    assert_eq!(first.gates[0].polys.len(), second.gates[0].polys.len());
}

#[test]
fn test_gate_violation_is_reported_with_row() {
    // an activated equality row with unequal cells names which gate failed at which row
    let n = 8;
    let mut meta = ConstraintSystem::new();
    let config = circuit_synthesis::a_equals_b::AEqbCircuit::configure(&mut meta);
    let mut layouter = Layouter::new(meta, n);
    let circuit = circuit_synthesis::a_equals_b::AEqbCircuit {
        a: Some(Fp::from_u64(4)),
        b: Some(Fp::from_u64(6)),
    };
    circuit.synthesize(config, &mut layouter).unwrap();
    let inst: Vec<Vec<Fp>> = Vec::new();
    let violations = verify_circuit(&layouter.cs, &layouter.asg, &inst);
    assert_eq!(violations.len(), 1);
    assert_eq!(violations[0], Violation::Gate { gate: 0, poly: 0, row: 0 });
}

#[test]
fn test_copy_violation_is_reported() {
    let n = 8;
    let mut meta = ConstraintSystem::new();
    let config = APlusBEqCCircuit::configure(&mut meta);
    let mut layouter = Layouter::new(meta, n);
    let circuit = APlusBEqCCircuit {
        a: Some(Fp::from_u64(2)),
        b: Some(Fp::from_u64(2)),
    };
    circuit.synthesize(config, &mut layouter).unwrap();
    // public input 5 disagrees with the exposed sum 4
    let mut column: Vec<Fp> = Vec::new();
    for row in 0..n {
        if row == 0 {
            column.push(Fp::from_u64(5));
        } else {
            column.push(Fp::from_u64(0));
        }
    }
    let violations = verify_circuit(&layouter.cs, &layouter.asg, &vec![column]);
    assert_eq!(violations.len(), 1);
    assert_eq!(violations[0], Violation::Copy { index: 0 });
}

#[test]
fn test_range_boundary_values() {
    // every residue below the bound is clean; the bound itself is not
    for value in 0..7u64 {
        let n = 8;
        let circuit = circuit_synthesis::range_check::MyCircuit {
            value: Some(Fp::from_u64(value)),
            range: 6,
        };
        let mut meta = ConstraintSystem::new();
        let config = circuit.configure(&mut meta);
        let mut layouter = Layouter::new(meta, n);
        circuit.synthesize(config, &mut layouter).unwrap();
        let inst: Vec<Vec<Fp>> = Vec::new();
        let violations = verify_circuit(&layouter.cs, &layouter.asg, &inst);
        if value < 6 {
            assert_eq!(violations.len(), 0);
        } else {
            assert_ne!(violations.len(), 0);
        }
    }
}

#[test]
fn test_fixed_column_assignment() {
    let mut meta = ConstraintSystem::new();
    let table = circuit_synthesis::table::RangeCheckTable::configure(&mut meta);
    let mut layouter = Layouter::new(meta, 4);
    layouter.begin_region();
    layouter
        .assign_fixed(table.value, 0, Fp::from_u64(11))
        .unwrap();
    layouter
        .assign_fixed(table.value, 1, Fp::from_u64(12))
        .unwrap();
    // a fixed cell is write-once as well
    let again = layouter.assign_fixed(table.value, 0, Fp::from_u64(13));
    assert_eq!(again.unwrap_err(), Error::AlreadyAssigned);
    layouter.end_region();
    assert_eq!(layouter.asg.fixed[table.value.index][0], Some(Fp::from_u64(11)));
    assert_eq!(layouter.asg.fixed[table.value.index][1], Some(Fp::from_u64(12)));
}

#[test]
fn test_regions_placed_disjoint() {
    let mut meta = ConstraintSystem::new();
    let col = meta.advice_column();
    let mut layouter = Layouter::new(meta, 8);
    for step in 0..3u64 {
        layouter.begin_region();
        layouter
            .assign_advice(col, 0, Some(Fp::from_u64(step)))
            .unwrap();
        layouter.end_region();
    }
    assert_eq!(layouter.regions.len(), 3);
    for i in 0..2 {
        let earlier = layouter.regions[i];
        let later = layouter.regions[i + 1];
        assert!(earlier.base + earlier.rows <= later.base);
    }
}

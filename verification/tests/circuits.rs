use circuit_synthesis::a_equals_b::AEqbCircuit;
use circuit_synthesis::a_plus_b_eq_c::APlusBEqCCircuit;
use circuit_synthesis::checker::verify_circuit;
use circuit_synthesis::example1::RangeCheckConfig;
use circuit_synthesis::field::Fp;
use circuit_synthesis::layout::Layouter;
use circuit_synthesis::range_check::MyCircuit;
use circuit_synthesis::system::ConstraintSystem;

/// One instance column of `n` rows, zero-padded beyond the given values.
fn one_instance_column(n: usize, values: &[u64]) -> Vec<Vec<Fp>> {
    let mut column: Vec<Fp> = Vec::new();
    for row in 0..n {
        if row < values.len() {
            column.push(Fp::from_u64(values[row]));
        } else {
            column.push(Fp::from_u64(0));
        }
    }
    vec![column]
}

#[test]
pub fn test_a_eq_b() {
    let n = 32;
    let a = Fp::from_u64(2);
    let b = Fp::from_u64(2);
    let mut meta = ConstraintSystem::new();
    let config = AEqbCircuit::configure(&mut meta);
    let mut layouter = Layouter::new(meta, n);
    let circuit = AEqbCircuit { a: Some(a), b: Some(b) };
    circuit.synthesize(config, &mut layouter).unwrap();
    let inst: Vec<Vec<Fp>> = Vec::new();
    let violations = verify_circuit(&layouter.cs, &layouter.asg, &inst);
    assert_eq!(violations.len(), 0);
}

#[test]
pub fn test_not_eq() {
    let n = 32;
    let a = Fp::from_u64(2);
    let b = Fp::from_u64(3);
    let mut meta = ConstraintSystem::new();
    let config = AEqbCircuit::configure(&mut meta);
    let mut layouter = Layouter::new(meta, n);
    let circuit = AEqbCircuit { a: Some(a), b: Some(b) };
    circuit.synthesize(config, &mut layouter).unwrap();
    let inst: Vec<Vec<Fp>> = Vec::new();
    let violations = verify_circuit(&layouter.cs, &layouter.asg, &inst);
    assert_ne!(violations.len(), 0);
}

#[test]
pub fn a_plus_b_eq_c_test_success() {
    let n = 32;
    let mut meta = ConstraintSystem::new();
    let config = APlusBEqCCircuit::configure(&mut meta);
    let mut layouter = Layouter::new(meta, n);
    let circuit = APlusBEqCCircuit {
        a: Some(Fp::from_u64(1)),
        b: Some(Fp::from_u64(2)),
    };
    circuit.synthesize(config, &mut layouter).unwrap();
    let public_inputs = one_instance_column(n, &[3]);
    let violations = verify_circuit(&layouter.cs, &layouter.asg, &public_inputs);
    assert_eq!(violations.len(), 0);
}

#[test]
pub fn a_plus_b_eq_c_test_wrong() {
    let n = 32;
    let mut meta = ConstraintSystem::new();
    let config = APlusBEqCCircuit::configure(&mut meta);
    let mut layouter = Layouter::new(meta, n);
    let circuit = APlusBEqCCircuit {
        a: Some(Fp::from_u64(1)),
        b: Some(Fp::from_u64(2)),
    };
    circuit.synthesize(config, &mut layouter).unwrap();
    let public_inputs = one_instance_column(n, &[7]);
    let violations = verify_circuit(&layouter.cs, &layouter.asg, &public_inputs);
    assert_ne!(violations.len(), 0);
}

#[test]
pub fn range_check_test_success() {
    let n = 32;
    let circuit = MyCircuit { value: Some(Fp::from_u64(2)), range: 6 };
    let mut meta = ConstraintSystem::new();
    let config = circuit.configure(&mut meta);
    let mut layouter = Layouter::new(meta, n);
    circuit.synthesize(config, &mut layouter).unwrap();
    let inst: Vec<Vec<Fp>> = Vec::new();
    let violations = verify_circuit(&layouter.cs, &layouter.asg, &inst);
    assert_eq!(violations.len(), 0);
}

#[test]
pub fn range_check_test_wrong() {
    let n = 32;
    let circuit = MyCircuit { value: Some(Fp::from_u64(10)), range: 6 };
    let mut meta = ConstraintSystem::new();
    let config = circuit.configure(&mut meta);
    let mut layouter = Layouter::new(meta, n);
    circuit.synthesize(config, &mut layouter).unwrap();
    let inst: Vec<Vec<Fp>> = Vec::new();
    let violations = verify_circuit(&layouter.cs, &layouter.asg, &inst);
    assert_ne!(violations.len(), 0);
}

#[test]
pub fn test_range_check() {
    let range: u64 = 8;
    let n = 16;
    for i in 0..range {
        let mut meta = ConstraintSystem::new();
        let value = meta.advice_column();
        let config = RangeCheckConfig::configure(&mut meta, value, range).unwrap();
        let mut layouter = Layouter::new(meta, n);
        config
            .assign(&mut layouter, Some(Fp::from_u64(i)))
            .unwrap();
        let inst: Vec<Vec<Fp>> = Vec::new();
        let violations = verify_circuit(&layouter.cs, &layouter.asg, &inst);
        assert_eq!(violations.len(), 0);
    }
}

#[test]
pub fn it_works() {}

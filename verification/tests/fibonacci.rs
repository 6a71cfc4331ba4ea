use circuit_synthesis::checker::verify_circuit;
use circuit_synthesis::field::Fp;
use circuit_synthesis::fibonacci::MyCircuit;
use circuit_synthesis::layout::Layouter;
use circuit_synthesis::system::ConstraintSystem;

fn fib_instance(n: usize, values: &[u64]) -> Vec<Vec<Fp>> {
    let mut column: Vec<Fp> = Vec::new();
    for row in 0..n {
        if row < values.len() {
            column.push(Fp::from_u64(values[row]));
        } else {
            column.push(Fp::from_u64(0));
        }
    }
    vec![column]
}

#[test]
fn test_fibonacci_valid_public_inputs() {
    let n = 16;
    let mut meta = ConstraintSystem::new();
    let config = MyCircuit::configure(&mut meta);
    let mut layouter = Layouter::new(meta, n);
    let circuit = MyCircuit { a: Some(Fp::from_u64(1)), b: Some(Fp::from_u64(1)) };
    circuit.synthesize(config, &mut layouter).unwrap();
    // seeds 1, 1 give the terms 1 1 2 3 5 8 13 21 34; the last cell is 34
    let public_inputs = fib_instance(n, &[1, 1, 34]);
    let violations = verify_circuit(&layouter.cs, &layouter.asg, &public_inputs);
    assert_eq!(violations.len(), 0);
}

#[test]
fn test_fibonacci_wrong_public_input() {
    let n = 16;
    let mut meta = ConstraintSystem::new();
    let config = MyCircuit::configure(&mut meta);
    let mut layouter = Layouter::new(meta, n);
    let circuit = MyCircuit { a: Some(Fp::from_u64(1)), b: Some(Fp::from_u64(1)) };
    circuit.synthesize(config, &mut layouter).unwrap();
    let public_inputs = fib_instance(n, &[1, 1, 35]);
    let violations = verify_circuit(&layouter.cs, &layouter.asg, &public_inputs);
    assert_ne!(violations.len(), 0);
}

#[test]
fn test_fibonacci_copy_propagation() {
    let n = 16;
    let mut meta = ConstraintSystem::new();
    let config = MyCircuit::configure(&mut meta);
    let mut layouter = Layouter::new(meta, n);
    let circuit = MyCircuit { a: Some(Fp::from_u64(3)), b: Some(Fp::from_u64(7)) };
    circuit.synthesize(config, &mut layouter).unwrap();
    let col_a = config.advice[0].index;
    let col_b = config.advice[1].index;
    let col_c = config.advice[2].index;
    for row in 0..6 {
        // each region's 2nd and 3rd cells reappear as the next region's
        // 1st and 2nd cells
        assert_eq!(
            layouter.asg.advice[col_a][row + 1],
            layouter.asg.advice[col_b][row]
        );
        assert_eq!(
            layouter.asg.advice[col_b][row + 1],
            layouter.asg.advice[col_c][row]
        );
    }
    // the first row carries the seeds and their sum
    assert_eq!(layouter.asg.advice[col_a][0], Some(Fp::from_u64(3)));
    assert_eq!(layouter.asg.advice[col_b][0], Some(Fp::from_u64(7)));
    assert_eq!(layouter.asg.advice[col_c][0], Some(Fp::from_u64(10)));
}

#[test]
fn test_fibonacci_missing_witness() {
    let n = 16;
    let mut meta = ConstraintSystem::new();
    let config = MyCircuit::configure(&mut meta);
    let mut layouter = Layouter::new(meta, n);
    let circuit = MyCircuit { a: None, b: Some(Fp::from_u64(1)) };
    let result = circuit.synthesize(config, &mut layouter);
    assert_eq!(result, Err(circuit_synthesis::layout::Error::MissingWitness));
}

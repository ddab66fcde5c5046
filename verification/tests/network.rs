use netrainer::error::TrainerError;
use netrainer::network::{train_result, Network};
use netrainer::template::NetworkTemplate;
use std::cell::Cell;

fn small() -> NetworkTemplate {
    NetworkTemplate { n_inputs: 2, hidden_layers: vec![4], n_outputs: 1 }
}

#[test]
fn topology_of_a_template() {
    assert_eq!(small().topology(), Ok(vec![2, 4, 1]));
    let bare = NetworkTemplate { n_inputs: 3, hidden_layers: vec![], n_outputs: 5 };
    assert_eq!(bare.topology(), Ok(vec![3, 5]));
    let deep = NetworkTemplate { n_inputs: 1, hidden_layers: vec![8, 6, 4], n_outputs: 2 };
    assert_eq!(deep.topology(), Ok(vec![1, 8, 6, 4, 2]));
}

#[test]
fn topology_refuses_an_empty_layer() {
    let no_input = NetworkTemplate { n_inputs: 0, hidden_layers: vec![4], n_outputs: 1 };
    let no_hidden = NetworkTemplate { n_inputs: 2, hidden_layers: vec![4, 0, 3], n_outputs: 1 };
    let no_output = NetworkTemplate { n_inputs: 2, hidden_layers: vec![4], n_outputs: 0 };
    assert_eq!(no_input.topology(), Err(TrainerError::InvalidTopology));
    assert_eq!(no_hidden.topology(), Err(TrainerError::InvalidTopology));
    assert_eq!(no_output.topology(), Err(TrainerError::InvalidTopology));
    assert!(matches!(Network::new(&no_hidden, 0.0), Err(TrainerError::InvalidTopology)));
}

#[test]
fn template_counts_stay_above_zero() {
    let mut t = small();
    t.fewer_inputs();
    assert_eq!(t.n_inputs, 1);
    t.fewer_inputs();
    assert_eq!(t.n_inputs, 1);
    t.more_inputs();
    t.more_inputs();
    assert_eq!(t.n_inputs, 3);
    t.fewer_outputs();
    assert_eq!(t.n_outputs, 1);
    t.more_outputs();
    assert_eq!(t.n_outputs, 2);
    t.fewer_outputs();
    assert_eq!(t.n_outputs, 1);
    assert_eq!(t.hidden_layers, vec![4]);
    let mut none = NetworkTemplate { n_inputs: 0, hidden_layers: vec![], n_outputs: 0 };
    none.fewer_inputs();
    none.fewer_outputs();
    assert_eq!((none.n_inputs, none.n_outputs), (1, 1));
}

#[test]
fn new_network_has_zeroed_buffers() {
    let net = Network::new(&small(), 0.0).unwrap();
    assert_eq!(net.topology(), &vec![2, 4, 1]);
    assert_eq!(net.input(), &vec![0.0, 0.0]);
    assert_eq!(net.output(), &vec![0.0]);
}

#[test]
fn set_input_checks_the_width() {
    let mut net = Network::new(&small(), 0.0).unwrap();
    assert_eq!(net.set_input(&[1.0, 0.0]), Ok(()));
    assert_eq!(net.input(), &vec![1.0, 0.0]);
    assert_eq!(net.set_input(&[1.0]), Err(TrainerError::ShapeMismatch));
    assert_eq!(net.set_input(&[1.0, 1.0, 1.0]), Err(TrainerError::ShapeMismatch));
    assert_eq!(net.input(), &vec![1.0, 0.0]);
    assert_eq!(net.output(), &vec![0.0]);
}

#[test]
fn process_hands_the_input_to_the_engine() {
    let mut net = Network::new(&small(), 0.0).unwrap();
    net.set_input(&[0.25, 0.5]).unwrap();
    let engine = |input: &Vec<f64>| -> Result<Vec<f64>, String> { Ok(vec![input[0] + input[1]]) };
    assert_eq!(net.process(&engine), Ok(&vec![0.75]));
    assert_eq!(net.output(), &vec![0.75]);
    assert_eq!(net.input(), &vec![0.25, 0.5]);
}

#[test]
fn process_with_an_engine_of_zero_weights() {
    let mut net = Network::new(&small(), 0.0).unwrap();
    net.set_input(&[1.0, 0.0]).unwrap();
    let engine = |input: &Vec<f64>| -> Result<Vec<f64>, String> {
        let sum: f64 = input.iter().map(|v| v * 0.0).sum();
        Ok(vec![1.0 / (1.0 + (-sum).exp())])
    };
    assert_eq!(net.process(&engine), Ok(&vec![0.5]));
    assert_eq!(net.process(&engine), Ok(&vec![0.5]));
    assert_eq!(net.output(), &vec![0.5]);
}

#[test]
fn process_passes_an_engine_failure_on() {
    let mut net = Network::new(&small(), 0.0).unwrap();
    net.store_output(Ok(vec![0.125])).unwrap();
    let engine = |_: &Vec<f64>| -> Result<Vec<f64>, String> { Err(String::from("unstable")) };
    assert_eq!(net.process(&engine), Err(TrainerError::EngineError(String::from("unstable"))));
    assert_eq!(net.output(), &vec![0.125]);
}

#[test]
fn store_output_checks_the_width() {
    let mut net = Network::new(&small(), 0.0).unwrap();
    assert_eq!(net.store_output(Ok(vec![0.5])), Ok(&vec![0.5]));
    assert_eq!(net.store_output(Ok(vec![0.1, 0.2])), Err(TrainerError::ShapeMismatch));
    assert_eq!(net.store_output(Ok(vec![])), Err(TrainerError::ShapeMismatch));
    assert_eq!(
        net.store_output(Err(String::from("down"))),
        Err(TrainerError::EngineError(String::from("down")))
    );
    assert_eq!(net.output(), &vec![0.5]);
}

#[test]
fn train_returns_the_loss_before_the_update() {
    let mut net = Network::new(&small(), 0.0).unwrap();
    net.set_input(&[1.0, 0.0]).unwrap();
    let weight = Cell::new(0.5);
    let measure = |input: &Vec<f64>, expected: &Vec<f64>| -> Result<f64, String> {
        let diff = input[0] * weight.get() - expected[0];
        Ok(diff * diff)
    };
    let update = |_: &Vec<f64>, expected: &Vec<f64>| -> Result<(), String> {
        weight.set(expected[0]);
        Ok(())
    };
    assert_eq!(net.train(&vec![1.0], &measure, &update), Ok(0.25));
    assert_eq!(weight.get(), 1.0);
    assert_eq!(net.train(&vec![1.0], &measure, &update), Ok(0.0));
}

#[test]
fn train_refuses_another_width_before_the_engine_runs() {
    let net = Network::new(&small(), 0.0).unwrap();
    let calls = Cell::new(0);
    let measure = |_: &Vec<f64>, _: &Vec<f64>| -> Result<f64, String> {
        calls.set(calls.get() + 1);
        Ok(0.0)
    };
    let update = |_: &Vec<f64>, _: &Vec<f64>| -> Result<(), String> {
        calls.set(calls.get() + 1);
        Ok(())
    };
    assert_eq!(net.train(&vec![1.0, 2.0], &measure, &update), Err(TrainerError::ShapeMismatch));
    assert_eq!(net.train(&vec![], &measure, &update), Err(TrainerError::ShapeMismatch));
    assert_eq!(calls.get(), 0);
}

#[test]
fn train_skips_the_update_when_the_loss_fails() {
    let net = Network::new(&small(), 0.0).unwrap();
    let updates = Cell::new(0);
    let measure = |_: &Vec<f64>, _: &Vec<f64>| -> Result<f64, String> { Err(String::from("nan")) };
    let update = |_: &Vec<f64>, _: &Vec<f64>| -> Result<(), String> {
        updates.set(updates.get() + 1);
        Ok(())
    };
    assert_eq!(
        net.train(&vec![1.0], &measure, &update),
        Err(TrainerError::EngineError(String::from("nan")))
    );
    assert_eq!(updates.get(), 0);
}

#[test]
fn train_passes_a_failed_update_on() {
    let net = Network::new(&small(), 0.0).unwrap();
    let measure = |_: &Vec<f64>, _: &Vec<f64>| -> Result<f64, String> { Ok(0.5) };
    let update = |_: &Vec<f64>, _: &Vec<f64>| -> Result<(), String> { Err(String::from("shape")) };
    assert_eq!(
        net.train(&vec![1.0], &measure, &update),
        Err(TrainerError::EngineError(String::from("shape")))
    );
}

#[test]
fn train_result_for_every_pair_of_answers() {
    let bad = |s: &str| -> TrainerError { TrainerError::EngineError(String::from(s)) };
    assert_eq!(train_result(Ok(0.5), Ok(())), Ok(0.5));
    assert_eq!(train_result(Ok(0.5), Err(String::from("u"))), Err(bad("u")));
    assert_eq!(train_result::<f64>(Err(String::from("m")), Ok(())), Err(bad("m")));
    assert_eq!(train_result::<f64>(Err(String::from("m")), Err(String::from("u"))), Err(bad("m")));
}

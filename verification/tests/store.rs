use netrainer::error::TrainerError;
use netrainer::text::append_decimal;
use netrainer::training_data::TrainingData;

fn xor_table() -> TrainingData<f64> {
    let mut data = TrainingData::new(2, 1).unwrap();
    data.add(&[0.0, 0.0], &[0.0]).unwrap();
    data.add(&[0.0, 1.0], &[1.0]).unwrap();
    data.add(&[1.0, 0.0], &[1.0]).unwrap();
    data.add(&[1.0, 1.0], &[0.0]).unwrap();
    data
}

fn texts(values: &Vec<f64>) -> Vec<String> {
    let mut out = Vec::new();
    for v in values {
        out.push(format!("{}", v));
    }
    out
}

#[test]
fn new_store_is_empty() {
    let data: TrainingData<f64> = TrainingData::new(3, 2).unwrap();
    assert_eq!(data.len(), 0);
    assert_eq!(data.n_inputs(), 3);
    assert_eq!(data.n_outputs(), 2);
    assert!(data.inputs().is_empty());
    assert!(data.outputs().is_empty());
}

#[test]
fn new_store_refuses_zero_widths() {
    assert!(matches!(TrainingData::<f64>::new(0, 1), Err(TrainerError::InvalidTopology)));
    assert!(matches!(TrainingData::<f64>::new(1, 0), Err(TrainerError::InvalidTopology)));
    assert!(matches!(TrainingData::<f64>::new(0, 0), Err(TrainerError::InvalidTopology)));
}

#[test]
fn add_extends_both_sequences() {
    let data = xor_table();
    assert_eq!(data.len(), 4);
    assert_eq!(data.inputs(), &vec![0.0, 0.0, 0.0, 1.0, 1.0, 0.0, 1.0, 1.0]);
    assert_eq!(data.outputs(), &vec![0.0, 1.0, 1.0, 0.0]);
}

#[test]
fn added_example_comes_back_at_its_index() {
    let mut data = xor_table();
    data.add(&[0.25, 0.75], &[0.5]).unwrap();
    assert_eq!(data.len(), 5);
    let mut input = Vec::new();
    let mut expectation = Vec::new();
    for n in [4usize, 9, 14, 5 * 1000 + 4] {
        assert_eq!(data.get(n, &mut input, &mut expectation), Ok(()));
        assert_eq!(input, vec![0.25, 0.75]);
        assert_eq!(expectation, vec![0.5]);
    }
}

#[test]
fn get_walks_the_table_in_order() {
    let data = xor_table();
    let mut input = vec![9.0; 7];
    let mut expectation = Vec::new();
    let rows = [([0.0, 0.0], 0.0), ([0.0, 1.0], 1.0), ([1.0, 0.0], 1.0), ([1.0, 1.0], 0.0)];
    for n in 0..12usize {
        assert_eq!(data.get(n, &mut input, &mut expectation), Ok(()));
        assert_eq!(input, rows[n % 4].0.to_vec());
        assert_eq!(expectation, vec![rows[n % 4].1]);
    }
}

#[test]
fn get_is_periodic() {
    let data = xor_table();
    let (mut a, mut b, mut c, mut d) = (Vec::new(), Vec::new(), Vec::new(), Vec::new());
    for n in 0..4usize {
        for k in [0usize, 1, 3, 250] {
            data.get(n, &mut a, &mut b).unwrap();
            data.get(n + k * data.len(), &mut c, &mut d).unwrap();
            assert_eq!(a, c);
            assert_eq!(b, d);
        }
    }
}

#[test]
fn mismatched_example_changes_nothing() {
    let mut data = xor_table();
    assert_eq!(data.add(&[1.0], &[1.0]), Err(TrainerError::ShapeMismatch));
    assert_eq!(data.add(&[1.0, 0.0], &[]), Err(TrainerError::ShapeMismatch));
    assert_eq!(data.add(&[1.0, 0.0, 1.0], &[1.0, 1.0]), Err(TrainerError::ShapeMismatch));
    assert_eq!(data.len(), 4);
    assert_eq!(data.inputs(), &vec![0.0, 0.0, 0.0, 1.0, 1.0, 0.0, 1.0, 1.0]);
    assert_eq!(data.outputs(), &vec![0.0, 1.0, 1.0, 0.0]);
}

#[test]
fn get_from_empty_store_fails() {
    let data: TrainingData<f64> = TrainingData::new(2, 1).unwrap();
    let mut input = vec![3.0, 4.0];
    let mut expectation = vec![5.0];
    assert_eq!(data.get(0, &mut input, &mut expectation), Err(TrainerError::EmptyStore));
    assert_eq!(data.get(17, &mut input, &mut expectation), Err(TrainerError::EmptyStore));
    assert_eq!(input, vec![3.0, 4.0]);
    assert_eq!(expectation, vec![5.0]);
}

#[test]
fn listing_of_the_table() {
    let data = xor_table();
    let by_texts = data.lay_out(&texts(data.inputs()), &texts(data.outputs())).unwrap();
    let text = data.to_string(&|v: &f64| format!("{}", v));
    assert_eq!(text, by_texts);
    assert_eq!(
        text,
        "Set[0]: I[ 0 0 ] O[ 0 ]\nSet[1]: I[ 0 1 ] O[ 1 ]\nSet[2]: I[ 1 0 ] O[ 1 ]\nSet[3]: I[ 1 1 ] O[ 0 ]\n"
    );
}

#[test]
fn listing_of_an_empty_store() {
    let data: TrainingData<f64> = TrainingData::new(2, 1).unwrap();
    assert_eq!(data.lay_out(&[], &[]), Ok(String::new()));
    assert_eq!(data.to_string(&|v: &f64| format!("{}", v)), String::new());
}

#[test]
fn listing_counts_past_nine() {
    let mut data = TrainingData::new(1, 2).unwrap();
    for i in 0..12 {
        data.add(&[i as f64 + 0.5], &[1.0, -2.0]).unwrap();
    }
    let text = data.to_string(&|v: &f64| format!("{}", v));
    let lines: Vec<&str> = text.lines().collect();
    assert_eq!(lines.len(), 12);
    assert_eq!(lines[0], "Set[0]: I[ 0.5 ] O[ 1 -2 ]");
    assert_eq!(lines[9], "Set[9]: I[ 9.5 ] O[ 1 -2 ]");
    assert_eq!(lines[10], "Set[10]: I[ 10.5 ] O[ 1 -2 ]");
    assert_eq!(lines[11], "Set[11]: I[ 11.5 ] O[ 1 -2 ]");
    assert!(text.ends_with("]\n"));
}

#[test]
fn listing_refuses_texts_of_other_lengths() {
    let data = xor_table();
    let ins = texts(data.inputs());
    let outs = texts(data.outputs());
    assert_eq!(data.lay_out(&ins[1..], &outs), Err(TrainerError::ShapeMismatch));
    assert_eq!(data.lay_out(&ins, &[]), Err(TrainerError::ShapeMismatch));
}

#[test]
fn decimal_text_of_numbers() {
    for (n, expected) in [(0usize, "0"), (7, "7"), (10, "10"), (909, "909"), (12345, "12345")] {
        let mut out = String::from("n=");
        append_decimal(&mut out, n);
        assert_eq!(out, format!("n={}", expected));
    }
    let mut out = String::new();
    append_decimal(&mut out, usize::MAX);
    assert_eq!(out, format!("{}", usize::MAX));
}

#[test]
fn listing_asks_for_each_value_in_storage_order() {
    let data = xor_table();
    let asked = std::cell::RefCell::new(Vec::new());
    let text = data.to_string(&|v: &f64| {
        asked.borrow_mut().push(*v);
        format!("<{}>", asked.borrow().len())
    });
    assert_eq!(
        asked.into_inner(),
        vec![0.0, 0.0, 0.0, 1.0, 1.0, 0.0, 1.0, 1.0, 0.0, 1.0, 1.0, 0.0]
    );
    assert!(text.starts_with("Set[0]: I[ <1> <2> ] O[ <9> ]\nSet[1]: I[ <3> <4> ] O[ <10> ]\n"));
}

#[test]
fn store_holds_other_values_too() {
    let mut data: TrainingData<u8> = TrainingData::new(1, 1).unwrap();
    data.add(&[7], &[9]).unwrap();
    let (mut a, mut b) = (Vec::new(), Vec::new());
    data.get(3, &mut a, &mut b).unwrap();
    assert_eq!((a, b), (vec![7], vec![9]));
}

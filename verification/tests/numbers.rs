use workbench::numbers::{
    generate_sequence, generate_sequence_2, output_sequence, output_sequence_2, output_sequence_3,
    print, print_2, print_3, print_4, print_5,
};

#[test]
fn generated_sequence_should_work() {
    let result = generate_sequence(7);

    assert_eq!(result, &[1, 2, 3, 4, 5, 6, 7]);
}

#[test]
fn both_generators_agree() {
    for limit in [0u8, 1, 2, 9, 10, 99, 100, 254, 255] {
        assert_eq!(generate_sequence(limit), generate_sequence_2(limit));
        assert_eq!(generate_sequence(limit).len(), usize::from(limit));
    }
    assert_eq!(generate_sequence(0), Vec::<u8>::new());
    assert_eq!(generate_sequence_2(255).last(), Some(&255u8));
}

#[test]
fn numbers_are_printed_in_decimal() {
    assert_eq!(
        output_sequence(&[0, 7, 10, 99, 100, 255]),
        vec!["0", "7", "10", "99", "100", "255"]
    );
    assert_eq!(output_sequence_2([5, 4, 3, 2, 1]), vec!["5", "4", "3", "2", "1"]);
    assert_eq!(output_sequence_3(vec![42]), vec!["42"]);
    assert!(output_sequence(&[]).is_empty());
}

#[test]
fn print_gives_one_line_for_each_number() {
    assert_eq!(print(7), vec!["1", "2", "3", "4", "5", "6", "7"]);
    assert!(print(0).is_empty());
    assert_eq!(print(12).last().map(|s| s.as_str()), Some("12"));
}

#[test]
fn the_fixed_sequences_are_one_to_five() {
    let expected = vec!["1", "2", "3", "4", "5"];
    assert_eq!(print_2(), expected);
    assert_eq!(print_3(), expected);
    assert_eq!(print_4(), expected);
    assert_eq!(
        print_5(),
        vec!["1", "2", "3", "4", "5", "1", "2", "3", "4", "5"]
    );
}

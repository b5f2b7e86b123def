use golly::rule::{parse_rule, RuleError};

fn counts(table: &[bool; 9]) -> Vec<usize> {
    (0..9).filter(|&n| table[n]).collect()
}

#[test]
fn conway_rule_is_read() {
    let (survive, born) = parse_rule("23/3").unwrap();
    assert_eq!(survive, [false, false, true, true, false, false, false, false, false]);
    assert_eq!(born, [false, false, false, true, false, false, false, false, false]);
}

#[test]
fn digits_may_come_in_any_order_and_twice() {
    let (survive, born) = parse_rule("3223/633").unwrap();
    assert_eq!(counts(&survive), vec![2, 3]);
    assert_eq!(counts(&born), vec![3, 6]);
}

#[test]
fn every_count_from_zero_to_eight_is_accepted() {
    let (survive, born) = parse_rule("012345678/876543210").unwrap();
    assert_eq!(survive, [true; 9]);
    assert_eq!(born, [true; 9]);
}

#[test]
fn empty_text_is_the_empty_rule() {
    assert_eq!(parse_rule(""), Ok(([false; 9], [false; 9])));
    assert_eq!(parse_rule("/"), Ok(([false; 9], [false; 9])));
}

#[test]
fn text_without_a_slash_is_all_survive() {
    let (survive, born) = parse_rule("08").unwrap();
    assert_eq!(counts(&survive), vec![0, 8]);
    assert_eq!(counts(&born), Vec::<usize>::new());
}

#[test]
fn either_side_of_the_slash_may_be_empty() {
    let (survive, born) = parse_rule("/3").unwrap();
    assert_eq!(counts(&survive), Vec::<usize>::new());
    assert_eq!(counts(&born), vec![3]);
    let (survive, born) = parse_rule("45/").unwrap();
    assert_eq!(counts(&survive), vec![4, 5]);
    assert_eq!(counts(&born), Vec::<usize>::new());
}

#[test]
fn nine_is_one_neighbor_too_many() {
    assert_eq!(parse_rule("9"), Err(RuleError::TooManyNeighbors));
    assert_eq!(parse_rule("23/39"), Err(RuleError::TooManyNeighbors));
    assert_eq!(parse_rule("239/3"), Err(RuleError::TooManyNeighbors));
}

#[test]
fn other_characters_are_no_digits() {
    assert_eq!(parse_rule("2,3/3"), Err(RuleError::NotADigit));
    assert_eq!(parse_rule("B3/S23"), Err(RuleError::NotADigit));
    assert_eq!(parse_rule(" 23/3"), Err(RuleError::NotADigit));
    assert_eq!(parse_rule("23/3\n"), Err(RuleError::NotADigit));
    assert_eq!(parse_rule("-1/3"), Err(RuleError::NotADigit));
    assert_eq!(parse_rule("a"), Err(RuleError::NotADigit));
    assert_eq!(parse_rule("\u{0663}"), Err(RuleError::NotADigit));
    assert_eq!(parse_rule("\u{ff13}/3"), Err(RuleError::NotADigit));
}

#[test]
fn a_second_slash_is_no_digit() {
    assert_eq!(parse_rule("23/3/4"), Err(RuleError::NotADigit));
    assert_eq!(parse_rule("//"), Err(RuleError::NotADigit));
}

#[test]
fn the_first_fault_decides_the_error() {
    assert_eq!(parse_rule("9x"), Err(RuleError::TooManyNeighbors));
    assert_eq!(parse_rule("x9"), Err(RuleError::NotADigit));
    assert_eq!(parse_rule("1/9/"), Err(RuleError::TooManyNeighbors));
    assert_eq!(parse_rule("1//9"), Err(RuleError::NotADigit));
}

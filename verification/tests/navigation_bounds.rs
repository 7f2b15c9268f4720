use rucline::navigation::{next_word, previous_word, previous_word_end};

#[derive(Copy, Clone)]
enum Heading {
    Forward,
    Backward,
}

impl Heading {
    fn start_for(self, scenario: &str) -> usize {
        match self {
            Heading::Forward => 0,
            Heading::Backward => scenario.len(),
        }
    }
}

const SCENARIOS: [&str; 10] = [
    "",
    "   \t   ",
    "AddZ   \t   ",
    "   \t   AddZ",
    "   \t   AddZ   \t   ",
    "AddZ AdZ  AZ \t  O AZ  AdZ   AddZ",
    "AddZ AdZ  AZ \t 😀 AZ  AdZ   AddZ",
    "AddZ AdZ  AZ😀AZ \t  O AZ  AdZ   AddZ",
    "AddZ AdZ  AZ \t 🇧🇷 AZ  AdZ   AddZ",
    "AddZ AdZ  AZ🇧🇷AZ \t  O AZ  AdZ   AddZ",
];

fn run_all<F, V>(heading: Heading, uut: F, validator: V)
where
    F: Fn(usize, &str) -> usize + Copy,
    V: Fn(usize, &str) -> bool + Copy,
{
    for scenario in &SCENARIOS {
        run_scenario(uut, validator, heading, scenario, heading.start_for(scenario), 0);
    }
}

fn run_scenario<F, V>(
    uut: F,
    validator: V,
    heading: Heading,
    scenario: &str,
    start: usize,
    iteration: usize,
) where
    F: Fn(usize, &str) -> usize + Copy,
    V: Fn(usize, &str) -> bool + Copy,
{
    let pivot = uut(start, scenario);

    match heading {
        Heading::Forward => {
            if pivot == scenario.len() {
                return;
            }
            assert!(pivot > start);
        }
        Heading::Backward => {
            if pivot == 0 {
                return;
            }
            assert!(pivot < start);
        }
    }

    assert!(
        validator(pivot, scenario),
        "failed on iteration {iteration} at index {pivot} for \"{scenario}\"",
    );
    run_scenario(uut, validator, heading, scenario, pivot, iteration + 1);
}

#[test]
fn navigation_next_word() {
    run_all(Heading::Forward, next_word, |pivot, string| {
        let c = string[pivot..].chars().next().unwrap();
        c == 'A' || c == 'O' || c == '😀' || c == '🇧'
    });
}

#[test]
fn navigation_previous_word() {
    run_all(Heading::Backward, previous_word, |pivot, string| {
        let c = string[pivot..].chars().next().unwrap();
        c == 'A' || c == 'O' || c == '😀' || c == '🇧'
    });
}

#[test]
fn navigation_previous_word_end() {
    run_all(Heading::Backward, previous_word_end, |pivot, string| {
        let c = string[..pivot].chars().next_back().unwrap();
        c == 'Z' || c == 'O' || c == '😀' || c == '🇷'
    });
}

#[test]
fn navigation_within_multiple_unicode_scalar_values() {
    let string = "ab 🇧🇷 cd";
    let pivot = "ab 🇧🇷".len() - 4;

    assert_eq!(next_word(pivot, string), "ab 🇧🇷 ".len());
    assert_eq!(previous_word(pivot, string), "ab ".len());
    assert_eq!(previous_word_end(pivot, string), "ab".len());
}

#[test]
fn next_scalar_value() {
    let string = "a😀øé🇧🇷";
    let mut index = 0;
    index = rucline::navigation::next_scalar_value(index, string);
    assert_eq!(string[index..].chars().next().unwrap(), '😀');
    index = rucline::navigation::next_scalar_value(index, string);
    assert_eq!(string[index..].chars().next().unwrap(), 'ø');
    index = rucline::navigation::next_scalar_value(index, string);
    assert_eq!(string[index..].chars().next().unwrap(), 'é');
    index = rucline::navigation::next_scalar_value(index, string);
    assert_eq!(string[index..].chars().next().unwrap(), "🇧🇷".chars().next().unwrap());
    index = rucline::navigation::next_scalar_value(index, string);
    assert_eq!(string[index..].chars().next().unwrap(), "🇧🇷".chars().nth(1).unwrap());
    index = rucline::navigation::next_scalar_value(index, string);
    assert_eq!(index, string.len());
    index = rucline::navigation::next_scalar_value(index, string);
    assert_eq!(index, string.len());
}

#[test]
fn previous_scalar_value() {
    let string = "a😀øé🇧🇷";
    let mut index = string.len();
    index = rucline::navigation::previous_scalar_value(index, string);
    assert_eq!(string[index..].chars().next().unwrap(), "🇧🇷".chars().nth(1).unwrap());
    index = rucline::navigation::previous_scalar_value(index, string);
    assert_eq!(string[index..].chars().next().unwrap(), "🇧🇷".chars().next().unwrap());
    index = rucline::navigation::previous_scalar_value(index, string);
    assert_eq!(string[index..].chars().next().unwrap(), 'é');
    index = rucline::navigation::previous_scalar_value(index, string);
    assert_eq!(string[index..].chars().next().unwrap(), 'ø');
    index = rucline::navigation::previous_scalar_value(index, string);
    assert_eq!(string[index..].chars().next().unwrap(), '😀');
    index = rucline::navigation::previous_scalar_value(index, string);
    assert_eq!(index, 0);
    assert_eq!(string[index..].chars().next().unwrap(), 'a');
    index = rucline::navigation::previous_scalar_value(index, string);
    assert_eq!(index, 0);
}

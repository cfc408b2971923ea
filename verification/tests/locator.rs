use jubako::reader::locator::{chain_next, chain_start, LocateStep};

/// Runs a chain of locators whose answers are given, as a caller of the steps does.
fn run_chain(answers: &[bool]) -> (Option<usize>, usize) {
    let mut asked = 0;
    let mut step = chain_start(answers.len());
    while let LocateStep::Ask(i) = step {
        asked += 1;
        step = chain_next(answers.len(), i, answers[i]);
    }
    match step {
        LocateStep::Found(i) => (Some(i), asked),
        _ => (None, asked),
    }
}

#[test]
fn chain_of_no_locator_finds_nothing() {
    assert_eq!(chain_start(0), LocateStep::NotFound);
    assert_eq!(run_chain(&[]), (None, 0));
}

#[test]
fn chain_first_locator_that_finds_wins() {
    assert_eq!(chain_start(3), LocateStep::Ask(0));
    assert_eq!(chain_next(3, 0, false), LocateStep::Ask(1));
    assert_eq!(chain_next(3, 1, true), LocateStep::Found(1));
    assert_eq!(run_chain(&[false, true, true]), (Some(1), 2));
    assert_eq!(run_chain(&[true, false]), (Some(0), 1));
}

#[test]
fn chain_asks_every_locator_before_giving_up() {
    assert_eq!(chain_next(2, 1, false), LocateStep::NotFound);
    assert_eq!(run_chain(&[false, false, false]), (None, 3));
}

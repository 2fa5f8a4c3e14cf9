use rust_study::guessing_game::{GuessFeedback, GuessGame, MAX_ATTEMPTS, SECRET_MAX, SECRET_MIN};

#[test]
fn feedback_compares_with_the_secret() {
    let mut g = GuessGame::new(42);
    assert_eq!(g.attempt(), 1);
    assert!(matches!(g.judge(Some(50)), GuessFeedback::TooBig));
    assert!(matches!(g.judge(Some(10)), GuessFeedback::TooSmall));
    assert!(matches!(g.judge(None), GuessFeedback::NotANumber));
    assert_eq!(g.attempt(), 4);
    assert!(!g.is_over());
    assert!(matches!(g.judge(Some(42)), GuessFeedback::Right));
    assert!(g.is_over());
    assert!(!g.failed());
}

#[test]
fn typed_lines_are_trimmed_and_parsed() {
    let mut g = GuessGame::new(7);
    assert!(matches!(g.guess("  9 \n"), GuessFeedback::TooBig));
    assert!(matches!(g.guess("abc\n"), GuessFeedback::NotANumber));
    assert!(matches!(g.guess("-3\n"), GuessFeedback::NotANumber));
    assert!(matches!(g.guess("4294967296\n"), GuessFeedback::NotANumber));
    assert!(matches!(g.guess("+3\n"), GuessFeedback::TooSmall));
    assert!(matches!(g.guess("\t007\r\n"), GuessFeedback::Right));
}

#[test]
fn game_ends_after_the_allowed_attempts() {
    let mut g = GuessGame::new(100);
    for _ in 0..MAX_ATTEMPTS {
        assert!(!g.is_over());
        assert!(matches!(g.judge(Some(1)), GuessFeedback::TooSmall));
    }
    assert!(g.is_over());
    assert!(g.failed());
}

#[test]
fn right_on_the_last_attempt_also_counts_as_past_the_limit() {
    let mut g = GuessGame::new(5);
    for _ in 1..MAX_ATTEMPTS {
        g.judge(Some(6));
    }
    assert!(!g.is_over());
    assert!(matches!(g.judge(Some(5)), GuessFeedback::Right));
    assert!(g.is_over());
    assert!(g.failed());
}

#[test]
fn random_secret_lies_in_range() {
    for _ in 0..20 {
        let mut g = GuessGame::start();
        let (mut low, mut high) = (SECRET_MIN, SECRET_MAX);
        let mut found = false;
        while !g.is_over() && low <= high {
            let mid = (low + high) / 2;
            match g.judge(Some(mid)) {
                GuessFeedback::Right => {
                    found = true;
                    break;
                }
                GuessFeedback::TooBig => high = mid - 1,
                GuessFeedback::TooSmall => low = mid + 1,
                GuessFeedback::NotANumber => unreachable!(),
            }
        }
        assert!(found);
        assert!(g.attempt() <= 8);
    }
}

#[test]
fn unicode_white_space_is_trimmed() {
    let mut g = GuessGame::new(12);
    assert!(matches!(g.guess("\u{3000}12\u{85}"), GuessFeedback::Right));
    let mut g = GuessGame::new(12);
    assert!(matches!(g.guess("1 2"), GuessFeedback::NotANumber));
}

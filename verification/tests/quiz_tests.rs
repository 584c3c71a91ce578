use immersion_ledger::quiz::evaluate_quiz;
use immersion_ledger::quiz::is_game_report_field;
use immersion_ledger::quiz::quiz_font;
use immersion_ledger::quiz::quiz_requirements;
use immersion_ledger::quiz::Deck;
use immersion_ledger::quiz::DiscordUser;
use immersion_ledger::quiz::InlineSettings;
use immersion_ledger::quiz::Participant;
use immersion_ledger::quiz::QuizData;
use immersion_ledger::quiz::QuizOutcome;
use immersion_ledger::quiz::Score;
use immersion_ledger::quiz::Settings;
use immersion_ledger::quiz::KOTOBA_BOT_ID;
use immersion_ledger::quiz::QUIZ_TIME_LIMIT;
use immersion_ledger::roles::QuizRequirement;
use immersion_ledger::roles::QuizRoles;

fn deck(id: &str) -> Deck {
    Deck { name: id.to_string(), short_name: id.to_string(), unique_id: id.to_string() }
}

fn settings(score_limit: i32, max_missed: i32, font: &str, time_limit: i32) -> Settings {
    Settings {
        is_conquest: false,
        score_limit,
        unanswered_question_limit: 5,
        answer_time_limit_in_ms: time_limit,
        new_question_delay_after_unanswered_in_ms: 0,
        new_question_delay_after_answered_in_ms: 0,
        additional_answer_wait_time_in_ms: 0,
        font_size: 40,
        font_color: "black".to_string(),
        background_color: "white".to_string(),
        font: font.to_string(),
        max_missed_questions: max_missed,
        shuffle: true,
        inline_settings: InlineSettings {
            font_family: font.to_string(),
            delay_after_unanswered_question: 0,
            delay_after_answered_question: 0,
            additional_answer_wait_window: 0,
            aliases: vec![],
            max_missed_questions: max_missed,
            answer_time_limit: time_limit,
            score_limit,
        },
    }
}

fn session(decks: Vec<&str>, score: i32, settings: Settings) -> QuizData {
    QuizData {
        participants: vec![Participant { discord_user: DiscordUser { id: "123456789".to_string() } }],
        scores: vec![Score { user: "someone".to_string(), score }],
        settings,
        decks: decks.into_iter().map(deck).collect(),
        is_loaded: true,
    }
}

fn catalog() -> Vec<QuizRequirement> {
    vec![QuizRequirement {
        quiz_role: QuizRoles::Quiz1,
        score_limit: 15,
        max_missed_questions: 4,
        unique_ids: vec!["A".to_string(), "B".to_string()],
    }]
}

#[test]
fn deck_set_must_match_exactly() {
    let reqs = catalog();
    let good = session(vec!["A", "B"], 15, settings(15, 4, "Eishiikaisho", QUIZ_TIME_LIMIT));
    assert_eq!(
        evaluate_quiz(&good, &reqs, "Eishiikaisho", QUIZ_TIME_LIMIT),
        QuizOutcome::Passed { quiz_role: QuizRoles::Quiz1 }
    );
    // A superset of the required decks does not match.
    let superset = session(vec!["A", "B", "C"], 15, settings(15, 4, "Eishiikaisho", QUIZ_TIME_LIMIT));
    assert_eq!(
        evaluate_quiz(&superset, &reqs, "Eishiikaisho", QUIZ_TIME_LIMIT),
        QuizOutcome::NoMatchingQuiz
    );
    // A subset does not match either.
    let subset = session(vec!["A"], 15, settings(15, 4, "Eishiikaisho", QUIZ_TIME_LIMIT));
    assert_eq!(
        evaluate_quiz(&subset, &reqs, "Eishiikaisho", QUIZ_TIME_LIMIT),
        QuizOutcome::NoMatchingQuiz
    );
}

#[test]
fn deck_order_does_not_matter() {
    let reqs = catalog();
    let reordered = session(vec!["B", "A"], 15, settings(15, 4, "Eishiikaisho", QUIZ_TIME_LIMIT));
    assert_eq!(
        evaluate_quiz(&reordered, &reqs, "Eishiikaisho", QUIZ_TIME_LIMIT),
        QuizOutcome::Passed { quiz_role: QuizRoles::Quiz1 }
    );
}

#[test]
fn more_than_one_participant_is_rejected() {
    let reqs = catalog();
    let mut data = session(vec!["A", "B"], 15, settings(15, 4, "Eishiikaisho", QUIZ_TIME_LIMIT));
    data.participants.push(Participant { discord_user: DiscordUser { id: "2".to_string() } });
    assert_eq!(
        evaluate_quiz(&data, &reqs, "Eishiikaisho", QUIZ_TIME_LIMIT),
        QuizOutcome::WrongParticipantCount
    );
    let mut data2 = session(vec!["A", "B"], 15, settings(15, 4, "Eishiikaisho", QUIZ_TIME_LIMIT));
    data2.scores.push(Score { user: "other".to_string(), score: 3 });
    assert_eq!(
        evaluate_quiz(&data2, &reqs, "Eishiikaisho", QUIZ_TIME_LIMIT),
        QuizOutcome::WrongParticipantCount
    );
}

#[test]
fn below_score_limit_is_silently_ignored() {
    let reqs = catalog();
    let data = session(vec!["A", "B"], 14, settings(15, 4, "Eishiikaisho", QUIZ_TIME_LIMIT));
    assert_eq!(
        evaluate_quiz(&data, &reqs, "Eishiikaisho", QUIZ_TIME_LIMIT),
        QuizOutcome::ScoreBelowLimit
    );
}

#[test]
fn settings_off_by_one_are_rejected_even_with_a_passing_score() {
    let reqs = catalog();
    // max_missed_questions is 5 instead of the required 4.
    let data = session(vec!["A", "B"], 20, settings(15, 5, "Eishiikaisho", QUIZ_TIME_LIMIT));
    assert_eq!(
        evaluate_quiz(&data, &reqs, "Eishiikaisho", QUIZ_TIME_LIMIT),
        QuizOutcome::IncorrectSettings
    );
}

#[test]
fn wrong_font_or_time_limit_is_rejected() {
    let reqs = catalog();
    let wrong_font = session(vec!["A", "B"], 20, settings(15, 4, "Arial", QUIZ_TIME_LIMIT));
    assert_eq!(
        evaluate_quiz(&wrong_font, &reqs, "Eishiikaisho", QUIZ_TIME_LIMIT),
        QuizOutcome::IncorrectSettings
    );
    let wrong_time = session(vec!["A", "B"], 20, settings(15, 4, "Eishiikaisho", 10000));
    assert_eq!(
        evaluate_quiz(&wrong_time, &reqs, "Eishiikaisho", QUIZ_TIME_LIMIT),
        QuizOutcome::IncorrectSettings
    );
}

#[test]
fn score_limit_must_match_the_catalog_not_just_exceed_it() {
    let reqs = catalog();
    // The session was configured with a score limit of 30: the score passes
    // the catalog's 15, but the configuration differs, so it is rejected.
    let data = session(vec!["A", "B"], 30, settings(30, 4, "Eishiikaisho", QUIZ_TIME_LIMIT));
    assert_eq!(
        evaluate_quiz(&data, &reqs, "Eishiikaisho", QUIZ_TIME_LIMIT),
        QuizOutcome::IncorrectSettings
    );
}

#[test]
fn first_matching_catalog_entry_wins() {
    let mut reqs = catalog();
    reqs.push(QuizRequirement {
        quiz_role: QuizRoles::Quiz2,
        score_limit: 1,
        max_missed_questions: 4,
        unique_ids: vec!["B".to_string(), "A".to_string()],
    });
    let data = session(vec!["A", "B"], 20, settings(15, 4, "Eishiikaisho", QUIZ_TIME_LIMIT));
    assert_eq!(
        evaluate_quiz(&data, &reqs, "Eishiikaisho", QUIZ_TIME_LIMIT),
        QuizOutcome::Passed { quiz_role: QuizRoles::Quiz1 }
    );
}

#[test]
fn standard_catalog_shape() {
    let reqs = quiz_requirements();
    assert_eq!(reqs.len(), 5);
    assert_eq!(reqs[0].quiz_role, QuizRoles::Quiz1);
    assert_eq!(reqs[0].score_limit, 15);
    assert_eq!(reqs[0].unique_ids, vec!["281ebf61-e0aa-429e-a09f-f5b56079ee46".to_string()]);
    assert_eq!(reqs[3].quiz_role, QuizRoles::Quiz4);
    assert_eq!(reqs[3].score_limit, 30);
    assert_eq!(reqs[3].unique_ids.len(), 9);
    assert_eq!(reqs[4].score_limit, 100);
    assert_eq!(reqs[4].unique_ids, vec!["stations_japan".to_string()]);
    for r in &reqs {
        assert_eq!(r.max_missed_questions, 4);
    }
    assert_eq!(quiz_font(), "Eishiikaisho");
    assert_eq!(QUIZ_TIME_LIMIT, 20000);
    assert_eq!(KOTOBA_BOT_ID, 251239170058616833);
}

#[test]
fn report_fields_are_recognized_by_name_and_link() {
    assert!(is_game_report_field(
        "Game Report",
        "[view](https://kotobaweb.com/dashboard/abc)"
    ));
    assert!(!is_game_report_field("Other", "[view](https://kotobaweb.com/dashboard/abc)"));
    assert!(!is_game_report_field("Game Report", "no link here"));
}

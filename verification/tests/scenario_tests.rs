//! An end-to-end walk of the whole pipeline: a log append, a blocked tier, a
//! quiz pass minting the credential, and the recomputed tier with
//! exactly one announcement.

use immersion_ledger::ledger::Ledger;
use immersion_ledger::quiz::evaluate_quiz;
use immersion_ledger::quiz::Deck;
use immersion_ledger::quiz::DiscordUser;
use immersion_ledger::quiz::InlineSettings;
use immersion_ledger::quiz::Participant;
use immersion_ledger::quiz::QuizData;
use immersion_ledger::quiz::QuizOutcome;
use immersion_ledger::quiz::Score;
use immersion_ledger::quiz::Settings;
use immersion_ledger::quiz::QUIZ_TIME_LIMIT;
use immersion_ledger::roles::plan_role_update;
use immersion_ledger::roles::QuizRequirement;
use immersion_ledger::roles::QuizRoles;
use immersion_ledger::roles::RoleRequirement;
use immersion_ledger::roles::Roles;

#[test]
fn a_quiz_pass_unlocks_the_gated_tier_with_one_announcement() {
    // A two-rung ladder: 100,000 characters ungated, 500,000 behind a gate.
    let ladder = vec![
        RoleRequirement { role: Roles::Heimin, characters: 100_000, quiz_role: None },
        RoleRequirement {
            role: Roles::Danshaku,
            characters: 500_000,
            quiz_role: Some(QuizRoles::Quiz1),
        },
    ];
    let catalog = vec![QuizRequirement {
        quiz_role: QuizRoles::Quiz1,
        score_limit: 15,
        max_missed_questions: 4,
        unique_ids: vec!["gate-deck".to_string()],
    }];

    // The user logs 600,000 characters in one event.
    let mut ledger = Ledger::new();
    let stats = ledger.add_log_entry(77, "reader", 600_000, 1_700_000_000, None);
    assert_eq!(stats.total_characters, 600_000);

    // Without the quiz credential, the tier stops at the ungated rung.
    let mut held_roles: Vec<Roles> = vec![];
    let mut held_quizzes: Vec<QuizRoles> = vec![];
    let first = plan_role_update(&ladder, &held_roles, &held_quizzes, stats.total_characters);
    assert_eq!(first.current, Some(Roles::Heimin));
    assert_eq!(first.grant, Some(Roles::Heimin));
    assert!(first.announce);
    held_roles = vec![first.grant.unwrap()];

    // The required quiz is passed with the exact catalog configuration.
    let report = QuizData {
        participants: vec![Participant { discord_user: DiscordUser { id: "77".to_string() } }],
        scores: vec![Score { user: "reader".to_string(), score: 16 }],
        settings: Settings {
            is_conquest: false,
            score_limit: 15,
            unanswered_question_limit: 5,
            answer_time_limit_in_ms: QUIZ_TIME_LIMIT,
            new_question_delay_after_unanswered_in_ms: 0,
            new_question_delay_after_answered_in_ms: 0,
            additional_answer_wait_time_in_ms: 0,
            font_size: 40,
            font_color: "black".to_string(),
            background_color: "white".to_string(),
            font: "Eishiikaisho".to_string(),
            max_missed_questions: 4,
            shuffle: true,
            inline_settings: InlineSettings {
                font_family: "Eishiikaisho".to_string(),
                delay_after_unanswered_question: 0,
                delay_after_answered_question: 0,
                additional_answer_wait_window: 0,
                aliases: vec![],
                max_missed_questions: 4,
                answer_time_limit: QUIZ_TIME_LIMIT,
                score_limit: 15,
            },
        },
        decks: vec![Deck {
            name: "gate deck".to_string(),
            short_name: "gd".to_string(),
            unique_id: "gate-deck".to_string(),
        }],
        is_loaded: true,
    };
    let outcome = evaluate_quiz(&report, &catalog, "Eishiikaisho", QUIZ_TIME_LIMIT);
    assert_eq!(outcome, QuizOutcome::Passed { quiz_role: QuizRoles::Quiz1 });
    if let QuizOutcome::Passed { quiz_role } = outcome {
        held_quizzes.push(quiz_role);
    }

    // Recomputing with the credential held reaches the gated tier and announces
    // the upgrade.
    let second = plan_role_update(&ladder, &held_roles, &held_quizzes, stats.total_characters);
    assert_eq!(second.current, Some(Roles::Danshaku));
    assert_eq!(second.revoke, vec![Roles::Heimin]);
    assert_eq!(second.grant, Some(Roles::Danshaku));
    assert!(second.announce);
    held_roles = vec![second.grant.unwrap()];

    // Running the reconciliation again emits nothing: the announcement fired
    // exactly once.
    let third = plan_role_update(&ladder, &held_roles, &held_quizzes, stats.total_characters);
    assert!(third.revoke.is_empty());
    assert_eq!(third.grant, None);
    assert!(!third.announce);
}

use immersion_ledger::roles::highest_eligible_tier;
use immersion_ledger::roles::next_requirement;
use immersion_ledger::roles::plan_role_update;
use immersion_ledger::roles::role_requirements;
use immersion_ledger::roles::QuizRoles;
use immersion_ledger::roles::RoleRequirement;
use immersion_ledger::roles::Roles;
use immersion_ledger::roles::UserRoles;

fn gated_ladder() -> Vec<RoleRequirement> {
    vec![
        RoleRequirement { role: Roles::Heimin, characters: 100, quiz_role: None },
        RoleRequirement { role: Roles::Danshaku, characters: 500, quiz_role: Some(QuizRoles::Quiz1) },
        RoleRequirement { role: Roles::Shishaku, characters: 1000, quiz_role: None },
    ]
}

#[test]
fn unmet_gate_blocks_all_later_tiers() {
    let ladder = gated_ladder();
    let held: Vec<QuizRoles> = vec![];
    // 1000 characters clears every threshold, but the unmet gate at 500
    // stops progression at the first tier.
    assert_eq!(highest_eligible_tier(&ladder, &held, 1000), Some(Roles::Heimin));
}

#[test]
fn held_gate_unlocks_later_tiers() {
    let ladder = gated_ladder();
    let held = vec![QuizRoles::Quiz1];
    assert_eq!(highest_eligible_tier(&ladder, &held, 1000), Some(Roles::Shishaku));
    assert_eq!(highest_eligible_tier(&ladder, &held, 700), Some(Roles::Danshaku));
}

#[test]
fn below_first_threshold_is_unranked() {
    let ladder = gated_ladder();
    let held: Vec<QuizRoles> = vec![];
    assert_eq!(highest_eligible_tier(&ladder, &held, 99), None);
}

#[test]
fn standard_ladder_thresholds() {
    let held: Vec<QuizRoles> = vec![];
    assert_eq!(Roles::from_characters_and_quiz_roles(&held, 99_999), None);
    assert_eq!(Roles::from_characters_and_quiz_roles(&held, 100_000), Some(Roles::Heimin));
    // Danshaku needs Quiz 1; without it the count alone is not enough.
    assert_eq!(Roles::from_characters_and_quiz_roles(&held, 600_000), Some(Roles::Heimin));
    let with_quiz1 = vec![QuizRoles::Quiz1];
    assert_eq!(Roles::from_characters_and_quiz_roles(&with_quiz1, 600_000), Some(Roles::Danshaku));
    assert_eq!(
        Roles::from_characters_and_quiz_roles(&with_quiz1, 2_000_000),
        Some(Roles::Hakushaku)
    );
}

#[test]
fn next_requirement_reports_threshold_or_gate() {
    let ladder = gated_ladder();
    let held: Vec<QuizRoles> = vec![];
    let below = next_requirement(&ladder, &held, 50).unwrap();
    assert_eq!(below.role, Roles::Heimin);
    assert_eq!(below.characters, 100);
    // Past the first threshold, the unmet gate is what is reported next.
    let gated = next_requirement(&ladder, &held, 700).unwrap();
    assert_eq!(gated.role, Roles::Danshaku);
    assert_eq!(gated.quiz_role, Some(QuizRoles::Quiz1));
    let held_all = vec![QuizRoles::Quiz1];
    assert!(next_requirement(&ladder, &held_all, 1000).is_none());
}

#[test]
fn role_names_round_trip() {
    let all = [
        Roles::Heimin,
        Roles::Danshaku,
        Roles::Shishaku,
        Roles::Hakushaku,
        Roles::SourouKoushaku,
        Roles::OoyakeKoushaku,
        Roles::Taikou,
        Roles::Ousama,
        Roles::Chisen,
        Roles::Texnsen,
        Roles::Texnnou,
        Roles::Jouzu,
    ];
    for role in all {
        assert_eq!(Roles::from_string(&role.to_string()), Some(role));
    }
    assert_eq!(Roles::to_string(&Roles::Heimin), "平民");
    assert_eq!(Roles::from_string("not a role"), None);
}

#[test]
fn quiz_names_round_trip() {
    let all = [
        QuizRoles::Quiz1,
        QuizRoles::Quiz2,
        QuizRoles::Quiz3,
        QuizRoles::Quiz4,
        QuizRoles::Quiz5,
    ];
    for q in all {
        assert_eq!(QuizRoles::from_string(&q.to_string()), Some(q));
    }
    assert_eq!(QuizRoles::to_string(&QuizRoles::Quiz3), "Quiz 3");
    assert_eq!(QuizRoles::from_string("Quiz 6"), None);
}

#[test]
fn user_roles_classifies_badge_names() {
    let names = vec![
        "Quiz 1".to_string(),
        "平民".to_string(),
        "something else".to_string(),
        "Quiz 3".to_string(),
        "男爵".to_string(),
    ];
    let ur = UserRoles::new(&names);
    assert_eq!(ur.quizzes, vec![QuizRoles::Quiz1, QuizRoles::Quiz3]);
    assert_eq!(ur.roles, vec![Roles::Heimin, Roles::Danshaku]);
}

#[test]
fn plan_revokes_everything_for_unranked_users() {
    let ladder = gated_ladder();
    let held = vec![Roles::Heimin, Roles::Danshaku];
    let quizzes: Vec<QuizRoles> = vec![];
    let plan = plan_role_update(&ladder, &held, &quizzes, 0);
    assert_eq!(plan.current, None);
    assert_eq!(plan.revoke, held);
    assert_eq!(plan.grant, None);
    assert!(!plan.announce);
}

#[test]
fn plan_is_a_noop_when_exactly_the_computed_tier_is_held() {
    let ladder = gated_ladder();
    let held = vec![Roles::Heimin];
    let quizzes: Vec<QuizRoles> = vec![];
    let plan = plan_role_update(&ladder, &held, &quizzes, 200);
    assert_eq!(plan.current, Some(Roles::Heimin));
    assert!(plan.revoke.is_empty());
    assert_eq!(plan.grant, None);
    assert!(!plan.announce);
}

#[test]
fn plan_swaps_badges_and_announces_upgrades() {
    let ladder = gated_ladder();
    let held = vec![Roles::Heimin];
    let quizzes = vec![QuizRoles::Quiz1];
    let plan = plan_role_update(&ladder, &held, &quizzes, 700);
    assert_eq!(plan.current, Some(Roles::Danshaku));
    assert_eq!(plan.revoke, vec![Roles::Heimin]);
    assert_eq!(plan.grant, Some(Roles::Danshaku));
    assert!(plan.announce);
}

#[test]
fn plan_suppresses_announcements_on_lateral_corrections() {
    let ladder = gated_ladder();
    // The user somehow holds a higher badge than computed: the swap happens
    // but no announcement fires.
    let held = vec![Roles::Shishaku];
    let quizzes: Vec<QuizRoles> = vec![];
    let plan = plan_role_update(&ladder, &held, &quizzes, 200);
    assert_eq!(plan.grant, Some(Roles::Heimin));
    assert_eq!(plan.revoke, vec![Roles::Shishaku]);
    assert!(!plan.announce);
}

#[test]
fn reapplying_a_plan_emits_nothing() {
    let ladder = gated_ladder();
    let held = vec![Roles::Heimin, Roles::Shishaku];
    let quizzes = vec![QuizRoles::Quiz1];
    let first = plan_role_update(&ladder, &held, &quizzes, 1500);
    assert_eq!(first.grant, Some(Roles::Shishaku));
    // Apply: all revoked, grant held.
    let held_after = vec![first.grant.unwrap()];
    let second = plan_role_update(&ladder, &held_after, &quizzes, 1500);
    assert!(second.revoke.is_empty());
    assert_eq!(second.grant, None);
    assert!(!second.announce);
}

#[test]
fn update_role_plan_uses_the_standard_ladder() {
    let ur = UserRoles::new(&vec!["平民".to_string()]);
    let plan = ur.update_role_plan(1_200_000);
    // Danshaku's gate is unmet, so 1.2M characters still computes Heimin.
    assert_eq!(plan.current, Some(Roles::Heimin));
    assert_eq!(plan.grant, None);
    assert!(plan.revoke.is_empty());
}

#[test]
fn ladder_index_orders_rungs() {
    assert!(Roles::ladder_index(&Roles::Texnnou) < Roles::ladder_index(&Roles::Chisen));
    assert!(Roles::ladder_index(&Roles::Chisen) < Roles::ladder_index(&Roles::Texnsen));
    assert_eq!(Roles::ladder_index(&Roles::Heimin), 0);
    assert_eq!(Roles::ladder_index(&Roles::Jouzu), 11);
    let ladder = role_requirements();
    for (i, entry) in ladder.iter().enumerate() {
        assert_eq!(entry.role.ladder_index(), i);
    }
}

#[test]
fn standard_ladder_thresholds_increase() {
    let ladder = role_requirements();
    assert_eq!(ladder.len(), 12);
    for w in ladder.windows(2) {
        assert!(w[0].characters < w[1].characters);
    }
    assert_eq!(ladder[0].characters, 100_000);
    assert_eq!(ladder[11].characters, 100_000_000);
    assert_eq!(ladder[1].quiz_role, Some(QuizRoles::Quiz1));
}

#[test]
fn badge_names_written_are_always_recognized() {
    // The round trip holds for every badge, so reconciliation can always
    // read back the badges it granted.
    for q in [
        QuizRoles::Quiz1,
        QuizRoles::Quiz2,
        QuizRoles::Quiz3,
        QuizRoles::Quiz4,
        QuizRoles::Quiz5,
    ] {
        let ur = UserRoles::new(&vec![q.to_string()]);
        assert_eq!(ur.quizzes, vec![q]);
        assert!(ur.roles.is_empty());
    }
}

//! The tier progression engine: the ladder of roles unlocked by cumulative
//! character counts, quiz gates that block progression past certain rungs,
//! and the reconciliation plan that brings a user's held badges in line with
//! the computed tier.

use crate::text::str_eq;
use vstd::prelude::*;

verus! {

/// The quiz gates, in the order they appear on the ladder.
#[derive(Clone, Copy, Debug, PartialEq, Eq, Structural)]
pub enum QuizRoles {
    Quiz1,
    Quiz2,
    Quiz3,
    Quiz4,
    Quiz5,
}

/// The tier badges. `ladder_index` gives each badge's rung on the ladder.
#[derive(Clone, Copy, Debug, PartialEq, Eq, Structural)]
pub enum Roles {
    Heimin,
    Danshaku,
    Shishaku,
    Hakushaku,
    SourouKoushaku,
    OoyakeKoushaku,
    Taikou,
    Ousama,
    Chisen,
    Texnsen,
    Texnnou,
    Jouzu,
}

/// One quiz gate's required session configuration: the decks that must be
/// used (exactly), the score that must be reached, and the missed-question
/// allowance that must match.
pub struct QuizRequirement {
    pub quiz_role: QuizRoles,
    pub score_limit: i32,
    pub max_missed_questions: i32,
    pub unique_ids: Vec<String>,
}

/// One rung of the ladder: the badge, the cumulative count that unlocks it,
/// and the quiz gate (if any) that must already be held to pass the rung.
#[derive(Clone, Copy, Debug)]
pub struct RoleRequirement {
    pub role: Roles,
    pub characters: i32,
    pub quiz_role: Option<QuizRoles>,
}

/// The ladder, ordered by strictly increasing threshold.
pub open spec fn spec_role_requirements() -> Seq<RoleRequirement> {
    seq![
        RoleRequirement { role: Roles::Heimin, characters: 100_000, quiz_role: None },
        RoleRequirement {
            role: Roles::Danshaku,
            characters: 500_000,
            quiz_role: Some(QuizRoles::Quiz1),
        },
        RoleRequirement { role: Roles::Shishaku, characters: 1_000_000, quiz_role: None },
        RoleRequirement { role: Roles::Hakushaku, characters: 2_000_000, quiz_role: None },
        RoleRequirement { role: Roles::SourouKoushaku, characters: 3_500_000, quiz_role: None },
        RoleRequirement {
            role: Roles::OoyakeKoushaku,
            characters: 5_000_000,
            quiz_role: Some(QuizRoles::Quiz2),
        },
        RoleRequirement { role: Roles::Taikou, characters: 7_500_000, quiz_role: None },
        RoleRequirement { role: Roles::Ousama, characters: 10_000_000, quiz_role: None },
        RoleRequirement { role: Roles::Texnnou, characters: 15_000_000, quiz_role: None },
        RoleRequirement {
            role: Roles::Chisen,
            characters: 25_000_000,
            quiz_role: Some(QuizRoles::Quiz3),
        },
        RoleRequirement {
            role: Roles::Texnsen,
            characters: 50_000_000,
            quiz_role: Some(QuizRoles::Quiz4),
        },
        RoleRequirement {
            role: Roles::Jouzu,
            characters: 100_000_000,
            quiz_role: Some(QuizRoles::Quiz5),
        },
    ]
}

/// The ladder as a vector, for walking at run time. Its thresholds are
/// strictly increasing.
pub fn role_requirements() -> (r: Vec<RoleRequirement>)
    ensures
        r@ =~= spec_role_requirements(),
        forall|i: int, j: int|
            0 <= i < j < r@.len() ==> (#[trigger] r@[i]).characters < (#[trigger] r@[j]).characters,
{
    let mut r: Vec<RoleRequirement> = Vec::new();
    r.push(RoleRequirement { role: Roles::Heimin, characters: 100_000, quiz_role: None });
    r.push(
        RoleRequirement {
            role: Roles::Danshaku,
            characters: 500_000,
            quiz_role: Some(QuizRoles::Quiz1),
        },
    );
    r.push(RoleRequirement { role: Roles::Shishaku, characters: 1_000_000, quiz_role: None });
    r.push(RoleRequirement { role: Roles::Hakushaku, characters: 2_000_000, quiz_role: None });
    r.push(RoleRequirement { role: Roles::SourouKoushaku, characters: 3_500_000, quiz_role: None });
    r.push(
        RoleRequirement {
            role: Roles::OoyakeKoushaku,
            characters: 5_000_000,
            quiz_role: Some(QuizRoles::Quiz2),
        },
    );
    r.push(RoleRequirement { role: Roles::Taikou, characters: 7_500_000, quiz_role: None });
    r.push(RoleRequirement { role: Roles::Ousama, characters: 10_000_000, quiz_role: None });
    r.push(RoleRequirement { role: Roles::Texnnou, characters: 15_000_000, quiz_role: None });
    r.push(
        RoleRequirement {
            role: Roles::Chisen,
            characters: 25_000_000,
            quiz_role: Some(QuizRoles::Quiz3),
        },
    );
    r.push(
        RoleRequirement {
            role: Roles::Texnsen,
            characters: 50_000_000,
            quiz_role: Some(QuizRoles::Quiz4),
        },
    );
    r.push(
        RoleRequirement {
            role: Roles::Jouzu,
            characters: 100_000_000,
            quiz_role: Some(QuizRoles::Quiz5),
        },
    );
    r
}

/// The highest rung reached walking the ladder from position `i` with `best`
/// already reached: a met threshold advances `best`, and the walk stops at
/// the first met threshold whose gate is not held — gates block all further
/// progression, regardless of the raw count.
pub open spec fn spec_highest_from(
    ladder: Seq<RoleRequirement>,
    held: Seq<QuizRoles>,
    characters: int,
    i: int,
    best: Option<Roles>,
) -> Option<Roles>
    decreases ladder.len() - i when 0 <= i <= ladder.len()
{
    if i >= ladder.len() {
        best
    } else if characters >= ladder[i].characters {
        match ladder[i].quiz_role {
            Some(gate) => if !held.contains(gate) {
                best
            } else {
                spec_highest_from(ladder, held, characters, i + 1, Some(ladder[i].role))
            },
            None => spec_highest_from(ladder, held, characters, i + 1, Some(ladder[i].role)),
        }
    } else {
        spec_highest_from(ladder, held, characters, i + 1, best)
    }
}

/// The single highest tier a count and a set of held gates are eligible for.
pub open spec fn spec_highest_eligible(
    ladder: Seq<RoleRequirement>,
    held: Seq<QuizRoles>,
    characters: int,
) -> Option<Roles> {
    spec_highest_from(ladder, held, characters, 0, None)
}

/// The first rung, in ascending order, that is not yet satisfied — because
/// the count is below its threshold or its gate is not held. `None` when the
/// whole ladder is satisfied.
pub open spec fn spec_next_requirement_from(
    ladder: Seq<RoleRequirement>,
    held: Seq<QuizRoles>,
    characters: int,
    i: int,
) -> Option<RoleRequirement>
    decreases ladder.len() - i when 0 <= i <= ladder.len()
{
    if i >= ladder.len() {
        None
    } else if characters < ladder[i].characters {
        Some(ladder[i])
    } else {
        match ladder[i].quiz_role {
            Some(gate) => if !held.contains(gate) {
                Some(ladder[i])
            } else {
                spec_next_requirement_from(ladder, held, characters, i + 1)
            },
            None => spec_next_requirement_from(ladder, held, characters, i + 1),
        }
    }
}

pub open spec fn spec_next_requirement(
    ladder: Seq<RoleRequirement>,
    held: Seq<QuizRoles>,
    characters: int,
) -> Option<RoleRequirement> {
    spec_next_requirement_from(ladder, held, characters, 0)
}

/// Whether a quiz gate is among the held ones.
pub fn holds_quiz(held: &Vec<QuizRoles>, gate: QuizRoles) -> (r: bool)
    ensures
        r == held@.contains(gate),
{
    let n = held.len();
    let mut i: usize = 0;
    while i < n
        invariant
            0 <= i <= n,
            n == held@.len(),
            forall|j: int| 0 <= j < i ==> held@[j] != gate,
        decreases n - i,
    {
        if held[i] == gate {
            return true;
        }
        i = i + 1;
    }
    false
}

/// Walks `ladder` and returns the single highest eligible tier.
pub fn highest_eligible_tier(
    ladder: &Vec<RoleRequirement>,
    quiz_roles: &Vec<QuizRoles>,
    characters: i32,
) -> (r: Option<Roles>)
    ensures
        r == spec_highest_eligible(ladder@, quiz_roles@, characters as int),
{
    let n = ladder.len();
    let mut best: Option<Roles> = None;
    let mut i: usize = 0;
    while i < n
        invariant
            0 <= i <= n,
            n == ladder@.len(),
            spec_highest_from(ladder@, quiz_roles@, characters as int, i as int, best)
                == spec_highest_eligible(ladder@, quiz_roles@, characters as int),
        decreases n - i,
    {
        let entry = &ladder[i];
        if characters >= entry.characters {
            match entry.quiz_role {
                Some(gate) => {
                    if !holds_quiz(quiz_roles, gate) {
                        return best;
                    }
                },
                None => {},
            }
            best = Some(entry.role);
        }
        i = i + 1;
    }
    best
}

/// Walks `ladder` and returns the first unsatisfied rung.
pub fn next_requirement(
    ladder: &Vec<RoleRequirement>,
    quiz_roles: &Vec<QuizRoles>,
    characters: i32,
) -> (r: Option<RoleRequirement>)
    ensures
        r == spec_next_requirement(ladder@, quiz_roles@, characters as int),
{
    let n = ladder.len();
    let mut i: usize = 0;
    while i < n
        invariant
            0 <= i <= n,
            n == ladder@.len(),
            spec_next_requirement_from(ladder@, quiz_roles@, characters as int, i as int)
                == spec_next_requirement(ladder@, quiz_roles@, characters as int),
        decreases n - i,
    {
        let entry = &ladder[i];
        if characters < entry.characters {
            return Some(*entry);
        }
        match entry.quiz_role {
            Some(gate) => {
                if !holds_quiz(quiz_roles, gate) {
                    return Some(*entry);
                }
            },
            None => {},
        }
        i = i + 1;
    }
    None
}

impl Roles {
    /// The rung of this badge on the ladder; higher rungs are higher tiers.
    pub open spec fn spec_ladder_index(self) -> int {
        match self {
            Roles::Heimin => 0,
            Roles::Danshaku => 1,
            Roles::Shishaku => 2,
            Roles::Hakushaku => 3,
            Roles::SourouKoushaku => 4,
            Roles::OoyakeKoushaku => 5,
            Roles::Taikou => 6,
            Roles::Ousama => 7,
            Roles::Texnnou => 8,
            Roles::Chisen => 9,
            Roles::Texnsen => 10,
            Roles::Jouzu => 11,
        }
    }

    pub fn ladder_index(&self) -> (r: usize)
        ensures
            r as int == self.spec_ladder_index(),
    {
        match self {
            Roles::Heimin => 0,
            Roles::Danshaku => 1,
            Roles::Shishaku => 2,
            Roles::Hakushaku => 3,
            Roles::SourouKoushaku => 4,
            Roles::OoyakeKoushaku => 5,
            Roles::Taikou => 6,
            Roles::Ousama => 7,
            Roles::Texnnou => 8,
            Roles::Chisen => 9,
            Roles::Texnsen => 10,
            Roles::Jouzu => 11,
        }
    }

    /// The badge's display name.
    pub open spec fn spec_name(self) -> Seq<char> {
        match self {
            Roles::Heimin => "平民"@,
            Roles::Danshaku => "男爵"@,
            Roles::Shishaku => "子爵"@,
            Roles::Hakushaku => "伯爵"@,
            Roles::SourouKoushaku => "侯爵"@,
            Roles::OoyakeKoushaku => "公爵"@,
            Roles::Taikou => "大公"@,
            Roles::Ousama => "王様"@,
            Roles::Texnnou => "天皇"@,
            Roles::Chisen => "地仙"@,
            Roles::Texnsen => "天仙"@,
            Roles::Jouzu => "上手"@,
        }
    }

    pub fn to_string(&self) -> (r: String)
        ensures
            r@ == self.spec_name(),
    {
        let s: &str = match self {
            Roles::Heimin => "平民",
            Roles::Danshaku => "男爵",
            Roles::Shishaku => "子爵",
            Roles::Hakushaku => "伯爵",
            Roles::SourouKoushaku => "侯爵",
            Roles::OoyakeKoushaku => "公爵",
            Roles::Taikou => "大公",
            Roles::Ousama => "王様",
            Roles::Texnnou => "天皇",
            Roles::Chisen => "地仙",
            Roles::Texnsen => "天仙",
            Roles::Jouzu => "上手",
        };
        s.to_owned()
    }

    /// The badge named by a string, if any; the inverse of `to_string`.
    pub open spec fn spec_from_name(s: Seq<char>) -> Option<Roles> {
        if s == "平民"@ {
            Some(Roles::Heimin)
        } else if s == "男爵"@ {
            Some(Roles::Danshaku)
        } else if s == "子爵"@ {
            Some(Roles::Shishaku)
        } else if s == "伯爵"@ {
            Some(Roles::Hakushaku)
        } else if s == "侯爵"@ {
            Some(Roles::SourouKoushaku)
        } else if s == "公爵"@ {
            Some(Roles::OoyakeKoushaku)
        } else if s == "大公"@ {
            Some(Roles::Taikou)
        } else if s == "王様"@ {
            Some(Roles::Ousama)
        } else if s == "天皇"@ {
            Some(Roles::Texnnou)
        } else if s == "地仙"@ {
            Some(Roles::Chisen)
        } else if s == "天仙"@ {
            Some(Roles::Texnsen)
        } else if s == "上手"@ {
            Some(Roles::Jouzu)
        } else {
            None
        }
    }

    pub fn from_string(input: &str) -> (r: Option<Roles>)
        ensures
            r == Self::spec_from_name(input@),
    {
        if str_eq(input, "平民") {
            Some(Roles::Heimin)
        } else if str_eq(input, "男爵") {
            Some(Roles::Danshaku)
        } else if str_eq(input, "子爵") {
            Some(Roles::Shishaku)
        } else if str_eq(input, "伯爵") {
            Some(Roles::Hakushaku)
        } else if str_eq(input, "侯爵") {
            Some(Roles::SourouKoushaku)
        } else if str_eq(input, "公爵") {
            Some(Roles::OoyakeKoushaku)
        } else if str_eq(input, "大公") {
            Some(Roles::Taikou)
        } else if str_eq(input, "王様") {
            Some(Roles::Ousama)
        } else if str_eq(input, "天皇") {
            Some(Roles::Texnnou)
        } else if str_eq(input, "地仙") {
            Some(Roles::Chisen)
        } else if str_eq(input, "天仙") {
            Some(Roles::Texnsen)
        } else if str_eq(input, "上手") {
            Some(Roles::Jouzu)
        } else {
            None
        }
    }

    /// The highest eligible tier under the standard ladder.
    pub fn from_characters_and_quiz_roles(quiz_roles: &Vec<QuizRoles>, characters: i32) -> (r:
        Option<Roles>)
        ensures
            r == spec_highest_eligible(spec_role_requirements(), quiz_roles@, characters as int),
    {
        let ladder = role_requirements();
        highest_eligible_tier(&ladder, quiz_roles, characters)
    }

    /// The first unsatisfied rung of the standard ladder.
    pub fn next_role_requirement(quiz_roles: &Vec<QuizRoles>, characters: i32) -> (r: Option<
        RoleRequirement,
    >)
        ensures
            r == spec_next_requirement(spec_role_requirements(), quiz_roles@, characters as int),
    {
        let ladder = role_requirements();
        next_requirement(&ladder, quiz_roles, characters)
    }
}

impl QuizRoles {
    /// This quiz badge's display name.
    pub open spec fn spec_name(self) -> Seq<char> {
        match self {
            QuizRoles::Quiz1 => "Quiz 1"@,
            QuizRoles::Quiz2 => "Quiz 2"@,
            QuizRoles::Quiz3 => "Quiz 3"@,
            QuizRoles::Quiz4 => "Quiz 4"@,
            QuizRoles::Quiz5 => "Quiz 5"@,
        }
    }

    pub fn to_string(&self) -> (r: String)
        ensures
            r@ == self.spec_name(),
    {
        let s: &str = match self {
            QuizRoles::Quiz1 => "Quiz 1",
            QuizRoles::Quiz2 => "Quiz 2",
            QuizRoles::Quiz3 => "Quiz 3",
            QuizRoles::Quiz4 => "Quiz 4",
            QuizRoles::Quiz5 => "Quiz 5",
        };
        s.to_owned()
    }

    /// The quiz badge named by a string, if any; the inverse of `to_string`.
    pub open spec fn spec_from_name(s: Seq<char>) -> Option<QuizRoles> {
        if s == "Quiz 1"@ {
            Some(QuizRoles::Quiz1)
        } else if s == "Quiz 2"@ {
            Some(QuizRoles::Quiz2)
        } else if s == "Quiz 3"@ {
            Some(QuizRoles::Quiz3)
        } else if s == "Quiz 4"@ {
            Some(QuizRoles::Quiz4)
        } else if s == "Quiz 5"@ {
            Some(QuizRoles::Quiz5)
        } else {
            None
        }
    }

    pub fn from_string(input: &str) -> (r: Option<QuizRoles>)
        ensures
            r == Self::spec_from_name(input@),
    {
        if str_eq(input, "Quiz 1") {
            Some(QuizRoles::Quiz1)
        } else if str_eq(input, "Quiz 2") {
            Some(QuizRoles::Quiz2)
        } else if str_eq(input, "Quiz 3") {
            Some(QuizRoles::Quiz3)
        } else if str_eq(input, "Quiz 4") {
            Some(QuizRoles::Quiz4)
        } else if str_eq(input, "Quiz 5") {
            Some(QuizRoles::Quiz5)
        } else {
            None
        }
    }
}

/// The gates parsed from a list of badge names, in order.
pub open spec fn spec_parse_quizzes(names: Seq<String>) -> Seq<QuizRoles>
    decreases names.len(),
{
    if names.len() == 0 {
        Seq::empty()
    } else {
        let rest = spec_parse_quizzes(names.drop_last());
        match QuizRoles::spec_from_name(names.last()@) {
            Some(q) => rest.push(q),
            None => rest,
        }
    }
}

/// The tier badges parsed from a list of badge names, in order; a name that
/// names a gate is never also read as a tier badge.
pub open spec fn spec_parse_roles(names: Seq<String>) -> Seq<Roles>
    decreases names.len(),
{
    if names.len() == 0 {
        Seq::empty()
    } else {
        let rest = spec_parse_roles(names.drop_last());
        if QuizRoles::spec_from_name(names.last()@) is Some {
            rest
        } else {
            match Roles::spec_from_name(names.last()@) {
                Some(r) => rest.push(r),
                None => rest,
            }
        }
    }
}

/// The badges a user currently holds, split into quiz gates and tier badges.
pub struct UserRoles {
    pub quizzes: Vec<QuizRoles>,
    pub roles: Vec<Roles>,
}

impl UserRoles {
    /// Classifies a list of badge names into held gates and held tier badges;
    /// unknown names are ignored.
    pub fn new(role_names: &Vec<String>) -> (r: UserRoles)
        ensures
            r.quizzes@ == spec_parse_quizzes(role_names@),
            r.roles@ == spec_parse_roles(role_names@),
    {
        let n = role_names.len();
        let mut quizzes: Vec<QuizRoles> = Vec::new();
        let mut roles: Vec<Roles> = Vec::new();
        let mut i: usize = 0;
        while i < n
            invariant
                0 <= i <= n,
                n == role_names@.len(),
                quizzes@ == spec_parse_quizzes(role_names@.take(i as int)),
                roles@ == spec_parse_roles(role_names@.take(i as int)),
            decreases n - i,
        {
            proof {
                let prefix = role_names@.take(i as int);
                let x = role_names@[i as int];
                assert(role_names@.take(i as int + 1) =~= prefix.push(x));
                assert(prefix.push(x).drop_last() =~= prefix);
                assert(prefix.push(x).last() == x);
            }
            let name = &role_names[i];
            match QuizRoles::from_string(name.as_str()) {
                Some(q) => {
                    quizzes.push(q);
                },
                None => {
                    match Roles::from_string(name.as_str()) {
                        Some(r) => {
                            roles.push(r);
                        },
                        None => {},
                    }
                },
            }
            i = i + 1;
        }
        proof {
            assert(role_names@.take(n as int) =~= role_names@);
        }
        UserRoles { quizzes, roles }
    }

    /// The grant/revoke instructions, under the standard ladder, that bring
    /// this badge set in line with the user's cumulative count.
    pub fn update_role_plan(&self, characters: i32) -> (p: RoleUpdatePlan)
        ensures
            p.current == spec_highest_eligible(
                spec_role_requirements(),
                self.quizzes@,
                characters as int,
            ),
            p.revoke@ == spec_plan_revoke(
                spec_role_requirements(),
                self.roles@,
                self.quizzes@,
                characters as int,
            ),
            p.grant == spec_plan_grant(
                spec_role_requirements(),
                self.roles@,
                self.quizzes@,
                characters as int,
            ),
            p.announce == spec_plan_announce(
                spec_role_requirements(),
                self.roles@,
                self.quizzes@,
                characters as int,
            ),
    {
        let ladder = role_requirements();
        plan_role_update(&ladder, &self.roles, &self.quizzes, characters)
    }
}

/// A user's badge set holds exactly the tier `t`: at least one badge, and
/// every held badge is `t`.
pub open spec fn holds_exactly(held: Seq<Roles>, t: Roles) -> bool {
    held.len() > 0 && forall|j: int| 0 <= j < held.len() ==> held[j] == t
}

/// The tier badges the reconciliation revokes: none when the badge set is
/// already exactly the computed tier, otherwise every held badge.
pub open spec fn spec_plan_revoke(
    ladder: Seq<RoleRequirement>,
    held: Seq<Roles>,
    quizzes: Seq<QuizRoles>,
    characters: int,
) -> Seq<Roles> {
    match spec_highest_eligible(ladder, quizzes, characters) {
        Some(t) => if holds_exactly(held, t) {
            Seq::empty()
        } else {
            held
        },
        None => held,
    }
}

/// The tier badge the reconciliation grants: the computed tier, unless the
/// user is unranked or already holds exactly that tier.
pub open spec fn spec_plan_grant(
    ladder: Seq<RoleRequirement>,
    held: Seq<Roles>,
    quizzes: Seq<QuizRoles>,
    characters: int,
) -> Option<Roles> {
    match spec_highest_eligible(ladder, quizzes, characters) {
        Some(t) => if holds_exactly(held, t) {
            None
        } else {
            Some(t)
        },
        None => None,
    }
}

/// Whether the grant is announced: only when a badge is granted and it sits
/// strictly higher on the ladder than every previously held badge, so
/// lateral or administrative corrections stay quiet.
pub open spec fn spec_plan_announce(
    ladder: Seq<RoleRequirement>,
    held: Seq<Roles>,
    quizzes: Seq<QuizRoles>,
    characters: int,
) -> bool {
    match spec_plan_grant(ladder, held, quizzes, characters) {
        Some(t) => forall|j: int|
            0 <= j < held.len() ==> (#[trigger] held[j]).spec_ladder_index()
                < t.spec_ladder_index(),
        None => false,
    }
}

/// The badge set after the plan is applied: revoked badges removed, the
/// granted badge added.
pub open spec fn spec_plan_after(
    ladder: Seq<RoleRequirement>,
    held: Seq<Roles>,
    quizzes: Seq<QuizRoles>,
    characters: int,
) -> Seq<Roles> {
    match spec_highest_eligible(ladder, quizzes, characters) {
        Some(t) => if holds_exactly(held, t) {
            held
        } else {
            seq![t]
        },
        None => Seq::empty(),
    }
}

/// The grant/revoke instructions reconciling held tier badges with the tier
/// computed from the count and the held gates.
pub struct RoleUpdatePlan {
    pub revoke: Vec<Roles>,
    pub grant: Option<Roles>,
    pub current: Option<Roles>,
    pub announce: bool,
}

/// Computes the reconciliation plan for one user.
pub fn plan_role_update(
    ladder: &Vec<RoleRequirement>,
    held_roles: &Vec<Roles>,
    held_quizzes: &Vec<QuizRoles>,
    characters: i32,
) -> (p: RoleUpdatePlan)
    ensures
        p.current == spec_highest_eligible(ladder@, held_quizzes@, characters as int),
        p.revoke@ == spec_plan_revoke(ladder@, held_roles@, held_quizzes@, characters as int),
        p.grant == spec_plan_grant(ladder@, held_roles@, held_quizzes@, characters as int),
        p.announce == spec_plan_announce(ladder@, held_roles@, held_quizzes@, characters as int),
{
    let current = highest_eligible_tier(ladder, held_quizzes, characters);
    match current {
        None => RoleUpdatePlan {
            revoke: copy_roles(held_roles),
            grant: None,
            current: None,
            announce: false,
        },
        Some(t) => {
            if holds_exactly_exec(held_roles, t) {
                RoleUpdatePlan { revoke: Vec::new(), grant: None, current, announce: false }
            } else {
                let announce = all_strictly_below(held_roles, t);
                RoleUpdatePlan { revoke: copy_roles(held_roles), grant: Some(t), current, announce }
            }
        },
    }
}

/// For all sequences of held badges, gates and counts: once the plan has
/// been applied, planning again with the same inputs emits no further grant
/// or revoke — the reconciliation is idempotent and self-healing.
pub proof fn lemma_role_update_idempotent(
    ladder: Seq<RoleRequirement>,
    held: Seq<Roles>,
    quizzes: Seq<QuizRoles>,
    characters: int,
)
    ensures
        spec_plan_revoke(ladder, spec_plan_after(ladder, held, quizzes, characters), quizzes, characters)
            =~= Seq::<Roles>::empty(),
        spec_plan_grant(ladder, spec_plan_after(ladder, held, quizzes, characters), quizzes, characters)
            is None,
{
    let after = spec_plan_after(ladder, held, quizzes, characters);
    match spec_highest_eligible(ladder, quizzes, characters) {
        Some(t) => {
            if holds_exactly(held, t) {
                assert(holds_exactly(after, t));
            } else {
                assert(after =~= seq![t]);
                assert(holds_exactly(after, t));
            }
        },
        None => {
            assert(after =~= Seq::<Roles>::empty());
        },
    }
}

fn copy_roles(v: &Vec<Roles>) -> (r: Vec<Roles>)
    ensures
        r@ =~= v@,
{
    let n = v.len();
    let mut r: Vec<Roles> = Vec::new();
    let mut i: usize = 0;
    while i < n
        invariant
            0 <= i <= n,
            n == v@.len(),
            r@ =~= v@.take(i as int),
        decreases n - i,
    {
        r.push(v[i]);
        i = i + 1;
    }
    r
}

fn holds_exactly_exec(held: &Vec<Roles>, t: Roles) -> (r: bool)
    ensures
        r == holds_exactly(held@, t),
{
    let n = held.len();
    if n == 0 {
        return false;
    }
    let mut i: usize = 0;
    while i < n
        invariant
            0 <= i <= n,
            n == held@.len(),
            forall|j: int| 0 <= j < i ==> held@[j] == t,
        decreases n - i,
    {
        if !(held[i] == t) {
            return false;
        }
        i = i + 1;
    }
    true
}

fn all_strictly_below(held: &Vec<Roles>, t: Roles) -> (r: bool)
    ensures
        r == (forall|j: int|
            0 <= j < held@.len() ==> (#[trigger] held@[j]).spec_ladder_index()
                < t.spec_ladder_index()),
{
    let n = held.len();
    let t_index = t.ladder_index();
    let mut i: usize = 0;
    while i < n
        invariant
            0 <= i <= n,
            n == held@.len(),
            t_index as int == t.spec_ladder_index(),
            forall|j: int|
                0 <= j < i ==> (#[trigger] held@[j]).spec_ladder_index() < t.spec_ladder_index(),
        decreases n - i,
    {
        if held[i].ladder_index() >= t_index {
            return false;
        }
        i = i + 1;
    }
    true
}

/// Every badge name written by `to_string` is recognized by `from_string`:
/// the two are inverses on the tier badges.
pub proof fn lemma_role_name_round_trip(r: Roles)
    ensures
        Roles::spec_from_name(r.spec_name()) == Some(r),
{
    reveal_strlit("平民");
    reveal_strlit("男爵");
    reveal_strlit("子爵");
    reveal_strlit("伯爵");
    reveal_strlit("侯爵");
    reveal_strlit("公爵");
    reveal_strlit("大公");
    reveal_strlit("王様");
    reveal_strlit("天皇");
    reveal_strlit("地仙");
    reveal_strlit("天仙");
    reveal_strlit("上手");
    match r {
        Roles::Heimin => {
            assert(Roles::spec_from_name(r.spec_name()) == Some(Roles::Heimin));
        },
        Roles::Danshaku => {
            assert("男爵"@[0] != "平民"@[0]);
            assert(Roles::spec_from_name(r.spec_name()) == Some(Roles::Danshaku));
        },
        Roles::Shishaku => {
            assert("子爵"@[0] != "平民"@[0]);
            assert("子爵"@[0] != "男爵"@[0]);
            assert(Roles::spec_from_name(r.spec_name()) == Some(Roles::Shishaku));
        },
        Roles::Hakushaku => {
            assert("伯爵"@[0] != "平民"@[0]);
            assert("伯爵"@[0] != "男爵"@[0]);
            assert("伯爵"@[0] != "子爵"@[0]);
            assert(Roles::spec_from_name(r.spec_name()) == Some(Roles::Hakushaku));
        },
        Roles::SourouKoushaku => {
            assert("侯爵"@[0] != "平民"@[0]);
            assert("侯爵"@[0] != "男爵"@[0]);
            assert("侯爵"@[0] != "子爵"@[0]);
            assert("侯爵"@[0] != "伯爵"@[0]);
            assert(Roles::spec_from_name(r.spec_name()) == Some(Roles::SourouKoushaku));
        },
        Roles::OoyakeKoushaku => {
            assert("公爵"@[0] != "平民"@[0]);
            assert("公爵"@[0] != "男爵"@[0]);
            assert("公爵"@[0] != "子爵"@[0]);
            assert("公爵"@[0] != "伯爵"@[0]);
            assert("公爵"@[0] != "侯爵"@[0]);
            assert(Roles::spec_from_name(r.spec_name()) == Some(Roles::OoyakeKoushaku));
        },
        Roles::Taikou => {
            assert("大公"@[0] != "平民"@[0]);
            assert("大公"@[0] != "男爵"@[0]);
            assert("大公"@[0] != "子爵"@[0]);
            assert("大公"@[0] != "伯爵"@[0]);
            assert("大公"@[0] != "侯爵"@[0]);
            assert("大公"@[0] != "公爵"@[0]);
            assert(Roles::spec_from_name(r.spec_name()) == Some(Roles::Taikou));
        },
        Roles::Ousama => {
            assert("王様"@[0] != "平民"@[0]);
            assert("王様"@[0] != "男爵"@[0]);
            assert("王様"@[0] != "子爵"@[0]);
            assert("王様"@[0] != "伯爵"@[0]);
            assert("王様"@[0] != "侯爵"@[0]);
            assert("王様"@[0] != "公爵"@[0]);
            assert("王様"@[0] != "大公"@[0]);
            assert(Roles::spec_from_name(r.spec_name()) == Some(Roles::Ousama));
        },
        Roles::Texnnou => {
            assert("天皇"@[0] != "平民"@[0]);
            assert("天皇"@[0] != "男爵"@[0]);
            assert("天皇"@[0] != "子爵"@[0]);
            assert("天皇"@[0] != "伯爵"@[0]);
            assert("天皇"@[0] != "侯爵"@[0]);
            assert("天皇"@[0] != "公爵"@[0]);
            assert("天皇"@[0] != "大公"@[0]);
            assert("天皇"@[0] != "王様"@[0]);
            assert(Roles::spec_from_name(r.spec_name()) == Some(Roles::Texnnou));
        },
        Roles::Chisen => {
            assert("地仙"@[0] != "平民"@[0]);
            assert("地仙"@[0] != "男爵"@[0]);
            assert("地仙"@[0] != "子爵"@[0]);
            assert("地仙"@[0] != "伯爵"@[0]);
            assert("地仙"@[0] != "侯爵"@[0]);
            assert("地仙"@[0] != "公爵"@[0]);
            assert("地仙"@[0] != "大公"@[0]);
            assert("地仙"@[0] != "王様"@[0]);
            assert("地仙"@[0] != "天皇"@[0]);
            assert(Roles::spec_from_name(r.spec_name()) == Some(Roles::Chisen));
        },
        Roles::Texnsen => {
            assert("天仙"@[0] != "平民"@[0]);
            assert("天仙"@[0] != "男爵"@[0]);
            assert("天仙"@[0] != "子爵"@[0]);
            assert("天仙"@[0] != "伯爵"@[0]);
            assert("天仙"@[0] != "侯爵"@[0]);
            assert("天仙"@[0] != "公爵"@[0]);
            assert("天仙"@[0] != "大公"@[0]);
            assert("天仙"@[0] != "王様"@[0]);
            assert("天仙"@[1] != "天皇"@[1]);
            assert("天仙"@[0] != "地仙"@[0]);
            assert(Roles::spec_from_name(r.spec_name()) == Some(Roles::Texnsen));
        },
        Roles::Jouzu => {
            assert("上手"@[0] != "平民"@[0]);
            assert("上手"@[0] != "男爵"@[0]);
            assert("上手"@[0] != "子爵"@[0]);
            assert("上手"@[0] != "伯爵"@[0]);
            assert("上手"@[0] != "侯爵"@[0]);
            assert("上手"@[0] != "公爵"@[0]);
            assert("上手"@[0] != "大公"@[0]);
            assert("上手"@[0] != "王様"@[0]);
            assert("上手"@[0] != "天皇"@[0]);
            assert("上手"@[0] != "地仙"@[0]);
            assert("上手"@[0] != "天仙"@[0]);
            assert(Roles::spec_from_name(r.spec_name()) == Some(Roles::Jouzu));
        },
    }
}

/// Every badge name written by `to_string` is recognized by `from_string`:
/// the two are inverses on the quiz badges.
pub proof fn lemma_quiz_name_round_trip(q: QuizRoles)
    ensures
        QuizRoles::spec_from_name(q.spec_name()) == Some(q),
{
    reveal_strlit("Quiz 1");
    reveal_strlit("Quiz 2");
    reveal_strlit("Quiz 3");
    reveal_strlit("Quiz 4");
    reveal_strlit("Quiz 5");
    match q {
        QuizRoles::Quiz1 => {
            assert(QuizRoles::spec_from_name(q.spec_name()) == Some(QuizRoles::Quiz1));
        },
        QuizRoles::Quiz2 => {
            assert("Quiz 2"@[5] != "Quiz 1"@[5]);
            assert(QuizRoles::spec_from_name(q.spec_name()) == Some(QuizRoles::Quiz2));
        },
        QuizRoles::Quiz3 => {
            assert("Quiz 3"@[5] != "Quiz 1"@[5]);
            assert("Quiz 3"@[5] != "Quiz 2"@[5]);
            assert(QuizRoles::spec_from_name(q.spec_name()) == Some(QuizRoles::Quiz3));
        },
        QuizRoles::Quiz4 => {
            assert("Quiz 4"@[5] != "Quiz 1"@[5]);
            assert("Quiz 4"@[5] != "Quiz 2"@[5]);
            assert("Quiz 4"@[5] != "Quiz 3"@[5]);
            assert(QuizRoles::spec_from_name(q.spec_name()) == Some(QuizRoles::Quiz4));
        },
        QuizRoles::Quiz5 => {
            assert("Quiz 5"@[5] != "Quiz 1"@[5]);
            assert("Quiz 5"@[5] != "Quiz 2"@[5]);
            assert("Quiz 5"@[5] != "Quiz 3"@[5]);
            assert("Quiz 5"@[5] != "Quiz 4"@[5]);
            assert(QuizRoles::spec_from_name(q.spec_name()) == Some(QuizRoles::Quiz5));
        },
    }
}

} // verus!

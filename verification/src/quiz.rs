//! The quiz verification protocol: the shape of a third-party quiz-session
//! report, the catalog of gate requirements, and the validation that decides
//! whether a session earns a gate credential.

use crate::roles::QuizRequirement;
use crate::roles::QuizRoles;
use crate::text::contains_seq;
use crate::text::spec_contains_seq;
use crate::text::str_eq;
use crate::text::str_to_chars;
use vstd::prelude::*;

verus! {

/// The fixed identity of the trusted quiz bot; reports from any other author
/// are ignored before anything is fetched.
pub const KOTOBA_BOT_ID: u64 = 251239170058616833;

/// The per-question time limit, in milliseconds, that every gate quiz must
/// use exactly.
pub const QUIZ_TIME_LIMIT: i32 = 20000;

/// The font that every gate quiz must use exactly.
pub open spec fn spec_quiz_font() -> Seq<char> {
    "Eishiikaisho"@
}

pub fn quiz_font() -> (r: &'static str)
    ensures
        r@ == spec_quiz_font(),
{
    "Eishiikaisho"
}

/// A quiz-session report, as served by the quiz service.
pub struct QuizData {
    pub participants: Vec<Participant>,
    pub scores: Vec<Score>,
    pub settings: Settings,
    pub decks: Vec<Deck>,
    pub is_loaded: bool,
}

pub struct Participant {
    pub discord_user: DiscordUser,
}

pub struct DiscordUser {
    pub id: String,
}

pub struct Score {
    pub user: String,
    pub score: i32,
}

pub struct Settings {
    pub is_conquest: bool,
    pub score_limit: i32,
    pub unanswered_question_limit: i32,
    pub answer_time_limit_in_ms: i32,
    pub new_question_delay_after_unanswered_in_ms: i32,
    pub new_question_delay_after_answered_in_ms: i32,
    pub additional_answer_wait_time_in_ms: i32,
    pub font_size: i32,
    pub font_color: String,
    pub background_color: String,
    pub font: String,
    pub max_missed_questions: i32,
    pub shuffle: bool,
    pub inline_settings: InlineSettings,
}

pub struct InlineSettings {
    pub font_family: String,
    pub delay_after_unanswered_question: i32,
    pub delay_after_answered_question: i32,
    pub additional_answer_wait_window: i32,
    pub aliases: Vec<String>,
    pub max_missed_questions: i32,
    pub answer_time_limit: i32,
    pub score_limit: i32,
}

pub struct Deck {
    pub name: String,
    pub short_name: String,
    pub unique_id: String,
}

pub struct Question {
    pub deck_unique_id: String,
    pub question: String,
    pub answers: Vec<String>,
    pub comment: String,
    pub correct_answerers: Vec<String>,
}

/// Whether `v` occurs among the identifier strings `ids`.
pub open spec fn in_ids(ids: Seq<String>, v: Seq<char>) -> bool {
    exists|i: int| 0 <= i < ids.len() && (#[trigger] ids[i])@ == v
}

/// The set of identifiers a list of strings holds, as character sequences.
pub open spec fn id_set(ids: Seq<String>) -> Set<Seq<char>> {
    Set::new(|v: Seq<char>| in_ids(ids, v))
}

/// The set of deck identifiers a session used.
pub open spec fn deck_id_set(decks: Seq<Deck>) -> Set<Seq<char>> {
    Set::new(|v: Seq<char>| exists|i: int| 0 <= i < decks.len() && (#[trigger] decks[i]).unique_id@ == v)
}

proof fn lemma_in_ids_witness(ids: Seq<String>, j: int)
    requires
        0 <= j < ids.len(),
    ensures
        in_ids(ids, ids[j]@),
{
    assert(0 <= j < ids.len() && (#[trigger] ids[j])@ == ids[j]@);
}

/// The first catalog entry whose required deck set equals `ids` exactly,
/// starting the search at `i`.
pub open spec fn spec_first_match_from(
    requirements: Seq<QuizRequirement>,
    ids: Set<Seq<char>>,
    i: int,
) -> Option<int>
    decreases requirements.len() - i when 0 <= i <= requirements.len()
{
    if i >= requirements.len() {
        None
    } else if id_set(requirements[i].unique_ids@) == ids {
        Some(i)
    } else {
        spec_first_match_from(requirements, ids, i + 1)
    }
}

pub open spec fn spec_first_match(requirements: Seq<QuizRequirement>, ids: Set<Seq<char>>) -> Option<
    int,
> {
    spec_first_match_from(requirements, ids, 0)
}

/// What the verification protocol decides about one session report.
#[derive(Clone, Copy, Debug, PartialEq, Eq, Structural)]
pub enum QuizOutcome {
    /// The deck set matches no catalog entry: not a gate quiz, silently
    /// ignored.
    NoMatchingQuiz,
    /// A gate quiz, but not taken alone: the user is told only one
    /// participant is allowed.
    WrongParticipantCount,
    /// A failed attempt below the required score: silently ignored.
    ScoreBelowLimit,
    /// The score qualifies but the session used a configuration other than
    /// the catalog's: rejected with a notice.
    IncorrectSettings,
    /// A valid pass: the named gate credential is granted.
    Passed { quiz_role: QuizRoles },
}

/// The decision for a session report `data` against a gate catalog: the deck
/// set must match an entry exactly, the session must have exactly one
/// participant and one score, the score must reach the entry's limit, and
/// the settings must equal the entry's and the global constants exactly.
pub open spec fn spec_evaluate_quiz(
    data: QuizData,
    requirements: Seq<QuizRequirement>,
    font: Seq<char>,
    answer_time_limit_in_ms: int,
) -> QuizOutcome {
    match spec_first_match(requirements, deck_id_set(data.decks@)) {
        None => QuizOutcome::NoMatchingQuiz,
        Some(i) => {
            let req = requirements[i];
            if data.scores@.len() != 1 || data.participants@.len() != 1 {
                QuizOutcome::WrongParticipantCount
            } else if data.scores@[0].score < req.score_limit {
                QuizOutcome::ScoreBelowLimit
            } else if req.max_missed_questions != data.settings.max_missed_questions
                || req.score_limit != data.settings.score_limit || data.settings.font@ != font
                || data.settings.answer_time_limit_in_ms != answer_time_limit_in_ms {
                QuizOutcome::IncorrectSettings
            } else {
                QuizOutcome::Passed { quiz_role: req.quiz_role }
            }
        },
    }
}

/// Whether an embed field is the quiz bot's report field: named
/// `Game Report` and carrying a dashboard link.
pub fn is_game_report_field(name: &str, value: &str) -> (r: bool)
    ensures
        r == (name@ == "Game Report"@ && spec_contains_seq(value@, "https://kotobaweb.com/"@)),
{
    if !str_eq(name, "Game Report") {
        return false;
    }
    let cs = str_to_chars(value);
    let pat = str_to_chars("https://kotobaweb.com/");
    contains_seq(&cs, &pat)
}

/// Whether a catalog entry carries exactly the given gate, limits and deck
/// identifiers.
pub open spec fn req_matches(
    r: QuizRequirement,
    role: QuizRoles,
    score_limit: i32,
    max_missed: i32,
    ids: Seq<Seq<char>>,
) -> bool {
    &&& r.quiz_role == role
    &&& r.score_limit == score_limit
    &&& r.max_missed_questions == max_missed
    &&& r.unique_ids@.len() == ids.len()
    &&& forall|i: int| 0 <= i < ids.len() ==> (#[trigger] r.unique_ids@[i])@ == ids[i]
}

/// The catalog of quiz gates: for each one, the decks the session must use
/// exactly, the score it must reach, and the missed-question allowance.
pub fn quiz_requirements() -> (r: Vec<QuizRequirement>)
    ensures
        r@.len() == 5,
        req_matches(r@[0], QuizRoles::Quiz1, 15, 4, seq!["281ebf61-e0aa-429e-a09f-f5b56079ee46"@]),
        req_matches(r@[1], QuizRoles::Quiz2, 20, 4, seq!["8982a22e-314d-4a08-a026-12e497299bb1"@]),
        req_matches(r@[2], QuizRoles::Quiz3, 20, 4, seq!["14c54eb0-f77d-4611-b974-c1e109ef09da"@]),
        req_matches(
            r@[3],
            QuizRoles::Quiz4,
            30,
            4,
            seq![
                "2bef521f-512c-490d-924d-b00086c10f2d"@,
                "animals"@,
                "birds"@,
                "bugs"@,
                "countries"@,
                "fish"@,
                "plants"@,
                "vegetables"@,
                "yojijukugo"@,
            ],
        ),
        req_matches(r@[4], QuizRoles::Quiz5, 100, 4, seq!["stations_japan"@]),
{
    let mut r: Vec<QuizRequirement> = Vec::new();
    let mut ids1: Vec<String> = Vec::new();
    ids1.push("281ebf61-e0aa-429e-a09f-f5b56079ee46".to_owned());
    r.push(
        QuizRequirement {
            quiz_role: QuizRoles::Quiz1,
            score_limit: 15,
            max_missed_questions: 4,
            unique_ids: ids1,
        },
    );
    let mut ids2: Vec<String> = Vec::new();
    ids2.push("8982a22e-314d-4a08-a026-12e497299bb1".to_owned());
    r.push(
        QuizRequirement {
            quiz_role: QuizRoles::Quiz2,
            score_limit: 20,
            max_missed_questions: 4,
            unique_ids: ids2,
        },
    );
    let mut ids3: Vec<String> = Vec::new();
    ids3.push("14c54eb0-f77d-4611-b974-c1e109ef09da".to_owned());
    r.push(
        QuizRequirement {
            quiz_role: QuizRoles::Quiz3,
            score_limit: 20,
            max_missed_questions: 4,
            unique_ids: ids3,
        },
    );
    let mut ids4: Vec<String> = Vec::new();
    ids4.push("2bef521f-512c-490d-924d-b00086c10f2d".to_owned());
    ids4.push("animals".to_owned());
    ids4.push("birds".to_owned());
    ids4.push("bugs".to_owned());
    ids4.push("countries".to_owned());
    ids4.push("fish".to_owned());
    ids4.push("plants".to_owned());
    ids4.push("vegetables".to_owned());
    ids4.push("yojijukugo".to_owned());
    r.push(
        QuizRequirement {
            quiz_role: QuizRoles::Quiz4,
            score_limit: 30,
            max_missed_questions: 4,
            unique_ids: ids4,
        },
    );
    let mut ids5: Vec<String> = Vec::new();
    ids5.push("stations_japan".to_owned());
    r.push(
        QuizRequirement {
            quiz_role: QuizRoles::Quiz5,
            score_limit: 100,
            max_missed_questions: 4,
            unique_ids: ids5,
        },
    );
    r
}

/// Whether some string in `v` reads `s`.
fn contains_str(v: &Vec<String>, s: &String) -> (r: bool)
    ensures
        r == in_ids(v@, s@),
{
    let n = v.len();
    let mut i: usize = 0;
    while i < n
        invariant
            0 <= i <= n,
            n == v@.len(),
            forall|j: int| 0 <= j < i ==> (#[trigger] v@[j])@ != s@,
        decreases n - i,
    {
        if str_eq(v[i].as_str(), s.as_str()) {
            proof {
                lemma_in_ids_witness(v@, i as int);
            }
            return true;
        }
        i = i + 1;
    }
    false
}

/// Whether every string of `a` also occurs in `b`.
fn ids_subset(a: &Vec<String>, b: &Vec<String>) -> (r: bool)
    ensures
        r == forall|i: int| 0 <= i < a@.len() ==> in_ids(b@, (#[trigger] a@[i])@),
{
    let n = a.len();
    let mut i: usize = 0;
    while i < n
        invariant
            0 <= i <= n,
            n == a@.len(),
            forall|k: int| 0 <= k < i ==> in_ids(b@, (#[trigger] a@[k])@),
        decreases n - i,
    {
        if !contains_str(b, &a[i]) {
            return false;
        }
        i = i + 1;
    }
    true
}

/// Whether two identifier lists hold the same set of identifiers.
fn same_id_set(a: &Vec<String>, b: &Vec<String>) -> (r: bool)
    ensures
        r == (id_set(a@) == id_set(b@)),
{
    let forward = ids_subset(a, b);
    let backward = ids_subset(b, a);
    if forward && backward {
        proof {
            assert forall|v: Seq<char>| id_set(a@).contains(v) == id_set(b@).contains(v) by {
                if in_ids(a@, v) {
                    let i = choose|i: int| 0 <= i < a@.len() && (#[trigger] a@[i])@ == v;
                    assert(in_ids(b@, a@[i]@));
                }
                if in_ids(b@, v) {
                    let i = choose|i: int| 0 <= i < b@.len() && (#[trigger] b@[i])@ == v;
                    assert(in_ids(a@, b@[i]@));
                }
            }
            assert(id_set(a@) =~= id_set(b@));
        }
        true
    } else {
        proof {
            if id_set(a@) == id_set(b@) {
                if !forward {
                    let i = choose|i: int| 0 <= i < a@.len() && !in_ids(b@, (#[trigger] a@[i])@);
                    lemma_in_ids_witness(a@, i);
                    assert(id_set(a@).contains(a@[i]@));
                    assert(id_set(b@).contains(a@[i]@));
                    assert(false);
                } else {
                    let i = choose|i: int| 0 <= i < b@.len() && !in_ids(a@, (#[trigger] b@[i])@);
                    lemma_in_ids_witness(b@, i);
                    assert(id_set(b@).contains(b@[i]@));
                    assert(id_set(a@).contains(b@[i]@));
                    assert(false);
                }
            }
        }
        false
    }
}

/// The deck identifiers a session used, as strings.
fn deck_id_strings(decks: &Vec<Deck>) -> (r: Vec<String>)
    ensures
        r@.len() == decks@.len(),
        forall|i: int| 0 <= i < decks@.len() ==> (#[trigger] r@[i])@ == decks@[i].unique_id@,
{
    let n = decks.len();
    let mut r: Vec<String> = Vec::new();
    let mut i: usize = 0;
    while i < n
        invariant
            0 <= i <= n,
            n == decks@.len(),
            r@.len() == i,
            forall|j: int| 0 <= j < i ==> (#[trigger] r@[j])@ == decks@[j].unique_id@,
        decreases n - i,
    {
        r.push(decks[i].unique_id.clone());
        i = i + 1;
    }
    r
}

/// Decides what a session report earns: a pass of the matching gate, one of
/// the two rejection notices, or a silent ignore.
pub fn evaluate_quiz(
    data: &QuizData,
    requirements: &Vec<QuizRequirement>,
    font: &str,
    answer_time_limit_in_ms: i32,
) -> (r: QuizOutcome)
    ensures
        r == spec_evaluate_quiz(*data, requirements@, font@, answer_time_limit_in_ms as int),
{
    let deck_ids = deck_id_strings(&data.decks);
    proof {
        assert forall|v: Seq<char>|
            id_set(deck_ids@).contains(v) == deck_id_set(data.decks@).contains(v) by {
            if in_ids(deck_ids@, v) {
                let i = choose|i: int| 0 <= i < deck_ids@.len() && (#[trigger] deck_ids@[i])@ == v;
                assert(0 <= i < data.decks@.len() && (#[trigger] data.decks@[i]).unique_id@ == v);
            }
            if deck_id_set(data.decks@).contains(v) {
                let i = choose|i: int|
                    0 <= i < data.decks@.len() && (#[trigger] data.decks@[i]).unique_id@ == v;
                assert(0 <= i < deck_ids@.len() && (#[trigger] deck_ids@[i])@ == v);
            }
        }
        assert(id_set(deck_ids@) =~= deck_id_set(data.decks@));
    }
    let n = requirements.len();
    let mut i: usize = 0;
    while i < n
        invariant
            0 <= i <= n,
            n == requirements@.len(),
            id_set(deck_ids@) == deck_id_set(data.decks@),
            spec_first_match_from(requirements@, deck_id_set(data.decks@), i as int)
                == spec_first_match(requirements@, deck_id_set(data.decks@)),
        decreases n - i,
    {
        let req = &requirements[i];
        if same_id_set(&req.unique_ids, &deck_ids) {
            proof {
                assert(spec_first_match(requirements@, deck_id_set(data.decks@)) == Some(
                    i as int,
                ));
            }
            if data.scores.len() != 1 || data.participants.len() != 1 {
                return QuizOutcome::WrongParticipantCount;
            }
            if data.scores[0].score < req.score_limit {
                return QuizOutcome::ScoreBelowLimit;
            }
            if req.max_missed_questions != data.settings.max_missed_questions || req.score_limit
                != data.settings.score_limit || !str_eq(data.settings.font.as_str(), font)
                || data.settings.answer_time_limit_in_ms != answer_time_limit_in_ms {
                return QuizOutcome::IncorrectSettings;
            }
            return QuizOutcome::Passed { quiz_role: req.quiz_role };
        }
        i = i + 1;
    }
    QuizOutcome::NoMatchingQuiz
}

} // verus!

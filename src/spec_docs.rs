use vstd::prelude::*;
use crate::policy::{any_hit, first_pattern_in, lemma_first_hit, texts};
use crate::execution::{decimal, join, join_texts, u128_text, u64_text};
use crate::text::{
    contains_text, find_char, find_char_from, is_numeric, leading_white_bytes,
    white_prefix_bytes,
    lines, lines_of, numeric_char, repeat_space, spaces, starts_with, str_contains,
    str_starts_with, string_views, strip_prefixes, strip_prefixes_str, to_lower, to_upper,
    lower_of, trim, trimmed, upper_of, replace_char, replace_char_str, split_on,
    split_trimmed, strip_suffixes, strip_suffixes_str, split_words, words_of, trim_non_alpha,
    trim_non_alphabetic, utf8_len, utf8_byte_len, replace_text, replace_str,
};

verus! {

/// The EARS sentence patterns.
#[derive(Debug, Clone, Copy, PartialEq, Eq, Structural)]
pub enum EarsPattern {
    /// THE <system> SHALL <response>
    Ubiquitous,
    /// WHEN <trigger>, THE <system> SHALL <response>
    EventDriven,
    /// WHILE <condition>, THE <system> SHALL <response>
    StateDriven,
    /// IF <condition>, THEN THE <system> SHALL <response>
    UnwantedEvent,
    /// WHERE <option>, THE <system> SHALL <response>
    OptionalFeature,
    /// A combination of the conditional patterns.
    Complex,
}

/// The verdict on one requirement sentence.
#[derive(Debug, Clone, PartialEq, Eq)]
pub enum EarsValidation {
    Valid(EarsPattern),
    Invalid(String),
}

/// One acceptance criterion of a requirements document.
#[derive(Debug, Clone)]
pub struct AcceptanceCriterion {
    pub id: String,
    pub requirement_id: String,
    pub text: String,
    pub ears_pattern: EarsValidation,
}

/// The verdict on a whole document.
#[derive(Debug, Clone)]
pub struct DocumentValidation {
    pub is_valid: bool,
    pub errors: Vec<String>,
    pub warnings: Vec<String>,
}

/// Writes and checks EARS requirements documents.
pub struct RequirementsManager;

/// Where a task stands.
#[derive(Debug, Clone, Copy, PartialEq, Eq, Structural)]
pub enum TaskStatus {
    NotStarted,
    InProgress,
    Completed,
    Unknown,
}

/// One task of an implementation plan.
#[derive(Debug, Clone)]
pub struct Task {
    pub id: String,
    pub description: String,
    pub completed: bool,
    pub dependencies: Vec<String>,
    pub requirements_refs: Vec<String>,
}

/// Writes and reads implementation plans.
pub struct TasksManager;

/// The keywords that mark a sentence as written in EARS.
pub open spec fn ears_keywords() -> Seq<Seq<char>> {
    seq!["THE"@, "SHALL"@, "WHEN"@, "WHILE"@, "IF"@, "WHERE"@]
}

/// The pattern of a sentence, from its upper-case form.
pub open spec fn ears_pattern_spec(u: Seq<char>) -> EarsPattern {
    let has_when = contains_text(u, "WHEN"@);
    let has_while = contains_text(u, "WHILE"@);
    let has_if = contains_text(u, "IF"@);
    let has_where = contains_text(u, "WHERE"@);
    if has_where && has_while && (has_when || has_if) {
        EarsPattern::Complex
    } else if has_when {
        EarsPattern::EventDriven
    } else if has_while {
        EarsPattern::StateDriven
    } else if has_if {
        EarsPattern::UnwantedEvent
    } else if has_where {
        EarsPattern::OptionalFeature
    } else {
        EarsPattern::Ubiquitous
    }
}

/// The verdict on a sentence, from its upper-case form: SHALL and THE are required, then
/// the conditional keywords decide the pattern.
pub open spec fn ears_verdict(u: Seq<char>, r: EarsValidation) -> bool {
    if !contains_text(u, "SHALL"@) {
        r matches EarsValidation::Invalid(m) && m@ == "Missing SHALL keyword"@
    } else if !contains_text(u, "THE"@) {
        r matches EarsValidation::Invalid(m) && m@ == "Missing THE keyword"@
    } else {
        r == EarsValidation::Valid(ears_pattern_spec(u))
    }
}

/// The requirements template before the feature name.
pub open spec fn requirements_head() -> Seq<char> {
    "# Requirements Document\n\n## Introduction\n\nThis document specifies the requirements for "@
}

/// The requirements template after the feature name.
pub open spec fn requirements_tail() -> Seq<char> {
    ".\n\n## Glossary\n\n- **System**: The main application or component being developed\n\n## Requirements\n\n### Requirement 1\n\n**User Story:** As a user, I want [feature], so that [benefit]\n\n#### Acceptance Criteria\n\n1. WHEN [trigger] THEN the System SHALL [response]\n2. WHILE [condition] THE System SHALL [response]\n3. IF [unwanted event] THEN the System SHALL [response]\n"@
}

/// The implementation plan template.
pub open spec fn tasks_template() -> Seq<char> {
    "# Implementation Plan\n\n- [ ] 1. Set up project structure\n  - Create basic project layout\n  - Set up dependencies\n  - _Requirements: 1.1_\n\n- [ ]* 1.1 Write property test for setup\n  - **Property 1: Setup completeness**\n  - **Validates: Requirements 1.1**\n\n- [ ] 2. Implement core functionality\n  - Create main components\n  - Implement business logic\n  - _Requirements: 2.1, 2.2_\n\n- [ ]* 2.1 Write property test for core functionality\n  - **Property 2: Core behavior**\n  - **Validates: Requirements 2.1**\n\n- [ ] 3. Checkpoint - Ensure all tests pass\n  - Ensure all tests pass, ask the user if questions arise.\n"@
}

/// The status a task line shows by its check box.
pub open spec fn task_status_spec(line: Seq<char>) -> TaskStatus {
    if contains_text(line, "- [x]"@) {
        TaskStatus::Completed
    } else if contains_text(line, "- [ ]"@) {
        TaskStatus::NotStarted
    } else {
        TaskStatus::Unknown
    }
}

impl RequirementsManager {
    /// A requirements document template for a feature.
    pub fn create_requirements(feature_name: &str) -> (r: String)
        ensures
            r@ == requirements_head() + feature_name@ + requirements_tail(),
    {
        let mut r = "# Requirements Document\n\n## Introduction\n\nThis document specifies the requirements for ".to_owned();
        r.append(feature_name);
        r.append(".\n\n## Glossary\n\n- **System**: The main application or component being developed\n\n## Requirements\n\n### Requirement 1\n\n**User Story:** As a user, I want [feature], so that [benefit]\n\n#### Acceptance Criteria\n\n1. WHEN [trigger] THEN the System SHALL [response]\n2. WHILE [condition] THE System SHALL [response]\n3. IF [unwanted event] THEN the System SHALL [response]\n");
        r
    }

    /// Whether a requirement uses any EARS keyword, as written (case matters).
    pub fn validate_ears_compliance(requirement: &str) -> (r: bool)
        ensures
            r == any_hit(requirement@, ears_keywords()),
    {
        let keywords = vec!["THE", "SHALL", "WHEN", "WHILE", "IF", "WHERE"];
        assert(texts(keywords@) =~= ears_keywords());
        proof {
            lemma_first_hit(requirement@, ears_keywords());
        }
        first_pattern_in(requirement, &keywords).is_some()
    }

    /// The verdict on a sentence already in upper case.
    pub fn classify_upper(upper: &str) -> (r: EarsValidation)
        ensures
            ears_verdict(upper@, r),
    {
        if !str_contains(upper, "SHALL") {
            return EarsValidation::Invalid("Missing SHALL keyword".to_owned());
        }
        if !str_contains(upper, "THE") {
            return EarsValidation::Invalid("Missing THE keyword".to_owned());
        }
        let has_when = str_contains(upper, "WHEN");
        let has_while = str_contains(upper, "WHILE");
        let has_if = str_contains(upper, "IF");
        let has_where = str_contains(upper, "WHERE");
        let pattern = if has_where && has_while && (has_when || has_if) {
            EarsPattern::Complex
        } else if has_when {
            EarsPattern::EventDriven
        } else if has_while {
            EarsPattern::StateDriven
        } else if has_if {
            EarsPattern::UnwantedEvent
        } else if has_where {
            EarsPattern::OptionalFeature
        } else {
            EarsPattern::Ubiquitous
        };
        EarsValidation::Valid(pattern)
    }

    /// The verdict on a requirement sentence, whatever its case.
    pub fn validate_ears_pattern(requirement: &str) -> (r: EarsValidation)
        ensures
            ears_verdict(upper_of(requirement@), r),
    {
        let upper = to_upper(requirement);
        Self::classify_upper(upper.as_str())
    }
}

impl TasksManager {
    /// The implementation plan template; the feature name is not used in it.
    pub fn generate_tasks_template(_feature_name: &str) -> (r: String)
        ensures
            r@ == tasks_template(),
    {
        "# Implementation Plan\n\n- [ ] 1. Set up project structure\n  - Create basic project layout\n  - Set up dependencies\n  - _Requirements: 1.1_\n\n- [ ]* 1.1 Write property test for setup\n  - **Property 1: Setup completeness**\n  - **Validates: Requirements 1.1**\n\n- [ ] 2. Implement core functionality\n  - Create main components\n  - Implement business logic\n  - _Requirements: 2.1, 2.2_\n\n- [ ]* 2.1 Write property test for core functionality\n  - **Property 2: Core behavior**\n  - **Validates: Requirements 2.1**\n\n- [ ] 3. Checkpoint - Ensure all tests pass\n  - Ensure all tests pass, ask the user if questions arise.\n".to_owned()
    }

    /// The status a task line shows: a ticked box is Completed, an empty one NotStarted.
    pub fn parse_task_status(task_line: &str) -> (r: TaskStatus)
        ensures
            r == task_status_spec(task_line@),
    {
        if str_contains(task_line, "- [x]") {
            TaskStatus::Completed
        } else if str_contains(task_line, "- [ ]") {
            TaskStatus::NotStarted
        } else {
            TaskStatus::Unknown
        }
    }
}

/// A criterion as the scan of a document finds it, with the line it came from.
pub struct CriterionSpec {
    pub id: Seq<char>,
    pub requirement_id: Seq<char>,
    pub text: Seq<char>,
    pub line: Seq<char>,
}

/// The state of the scan: the requirement being read, how many of its criteria were
/// found, and the criteria found so far.
pub struct CriteriaScan {
    pub requirement: Option<Seq<char>>,
    pub number: nat,
    pub found: Seq<CriterionSpec>,
}

/// A numbered line that uses SHALL.
pub open spec fn is_criterion_line(line: Seq<char>) -> bool {
    trim(line).len() > 0 && numeric_char(trim(line)[0]) && contains_text(line, "SHALL"@)
}

/// One line of the scan: a `### Requirement` header starts a requirement, named by the
/// rest of the header; within a requirement each criterion line is numbered from 1.
pub open spec fn criteria_step(st: CriteriaScan, line: Seq<char>) -> CriteriaScan {
    let st1 = if starts_with(line, "### Requirement"@) {
        CriteriaScan {
            requirement: Some(trim(strip_prefixes(line, "### Requirement"@))),
            number: 0,
            found: st.found,
        }
    } else {
        st
    };
    match st1.requirement {
        Some(req) => if is_criterion_line(line) {
            let n = st1.number + 1;
            CriteriaScan {
                requirement: st1.requirement,
                number: n,
                found: st1.found.push(
                    CriterionSpec {
                        id: req + "."@ + decimal(n),
                        requirement_id: req,
                        text: trim(line),
                        line,
                    },
                ),
            }
        } else {
            st1
        },
        None => st1,
    }
}

/// The scan over a sequence of lines.
pub open spec fn criteria_scan(ls: Seq<Seq<char>>) -> CriteriaScan
    decreases ls.len(),
{
    if ls.len() == 0 {
        CriteriaScan { requirement: None, number: 0, found: Seq::empty() }
    } else {
        criteria_step(criteria_scan(ls.drop_last()), ls.last())
    }
}

/// `r` holds exactly the criteria of the scan, each with the verdict on its line.
pub open spec fn criteria_match(r: Seq<AcceptanceCriterion>, found: Seq<CriterionSpec>) -> bool {
    &&& r.len() == found.len()
    &&& forall|k: int|
        0 <= k < r.len() ==> {
            &&& (#[trigger] r[k]).id@ == found[k].id
            &&& r[k].requirement_id@ == found[k].requirement_id
            &&& r[k].text@ == found[k].text
            &&& ears_verdict(upper_of(found[k].line), r[k].ears_pattern)
        }
}

/// Why a sentence fails the EARS check, from its upper-case form.
pub open spec fn ears_failure(u: Seq<char>) -> Option<Seq<char>> {
    if !contains_text(u, "SHALL"@) {
        Some("Missing SHALL keyword"@)
    } else if !contains_text(u, "THE"@) {
        Some("Missing THE keyword"@)
    } else {
        None
    }
}

/// The errors reported for the criteria, in order.
pub open spec fn criteria_errors(found: Seq<CriterionSpec>) -> Seq<Seq<char>>
    decreases found.len(),
{
    if found.len() == 0 {
        Seq::empty()
    } else {
        let prev = criteria_errors(found.drop_last());
        let c = found.last();
        match ears_failure(upper_of(c.line)) {
            Some(reason) => prev.push("Criterion "@ + c.id + ": "@ + reason),
            None => prev,
        }
    }
}

/// The errors of a requirements document: missing sections, then failing criteria.
pub open spec fn document_errors(content: Seq<char>) -> Seq<Seq<char>> {
    let a: Seq<Seq<char>> = if !contains_text(content, "## Introduction"@) {
        seq!["Missing Introduction section"@]
    } else {
        seq![]
    };
    let b: Seq<Seq<char>> = if !contains_text(content, "## Requirements"@) {
        a.push("Missing Requirements section"@)
    } else {
        a
    };
    b + criteria_errors(criteria_scan(lines_of(content)).found)
}

/// The warnings of a requirements document.
pub open spec fn document_warnings(content: Seq<char>) -> Seq<Seq<char>> {
    if !contains_text(content, "## Glossary"@) {
        seq!["Missing Glossary section (recommended)"@]
    } else {
        seq![]
    }
}

impl RequirementsManager {
    /// The acceptance criteria of a requirements document: the numbered lines that use
    /// SHALL under a `### Requirement` header, with ids `<requirement>.<n>`.
    pub fn extract_acceptance_criteria(content: &str) -> (r: Vec<AcceptanceCriterion>)
        ensures
            criteria_match(r@, criteria_scan(lines_of(content@)).found),
    {
        let ls = lines(content);
        let ghost all = lines_of(content@);
        let mut criteria: Vec<AcceptanceCriterion> = Vec::new();
        let mut current: Option<String> = None;
        let mut number: usize = 0;
        let mut i: usize = 0;
        assert(all.subrange(0, 0) =~= Seq::<Seq<char>>::empty());
        while i < ls.len()
            invariant
                string_views(ls@) == all,
                i <= ls@.len(),
                number <= i,
                ({
                    let st = criteria_scan(all.subrange(0, i as int));
                    &&& st.number == number
                    &&& st.requirement == match current {
                        Some(c) => Some(c@),
                        None => None::<Seq<char>>,
                    }
                    &&& criteria_match(criteria@, st.found)
                }),
            decreases ls@.len() - i,
        {
            proof {
                assert(all.subrange(0, i + 1).drop_last() =~= all.subrange(0, i as int));
                assert(all.subrange(0, i + 1).last() == ls@[i as int]@);
            }
            let line = ls[i].as_str();
            if str_starts_with(line, "### Requirement") {
                let stripped = strip_prefixes_str(line, "### Requirement");
                current = Some(trimmed(stripped.as_str()));
                number = 0;
            }
            match &current {
                Some(req) => {
                    let t = trimmed(line);
                    let numbered = t.as_str().unicode_len() > 0 && is_numeric(t.as_str().get_char(0));
                    if numbered && str_contains(line, "SHALL") {
                        number = number + 1;
                        let mut id = req.clone();
                        id.append(".");
                        let digits = u64_text(number as u64);
                        id.append(digits.as_str());
                        let ghost before = criteria@;
                        criteria.push(AcceptanceCriterion {
                            id,
                            requirement_id: req.clone(),
                            text: t,
                            ears_pattern: Self::validate_ears_pattern(line),
                        });
                        proof {
                            assert forall|k: int| 0 <= k < before.len() implies criteria@[k] == before[k] by {}
                        }
                    }
                },
                None => {},
            }
            i += 1;
        }
        assert(all.subrange(0, ls@.len() as int) =~= all);
        criteria
    }

    /// Checks a requirements document: the Introduction and Requirements sections are
    /// required, the Glossary is recommended, and every criterion must pass the EARS
    /// check.
    pub fn validate_document(content: &str) -> (r: DocumentValidation)
        ensures
            string_views(r.errors@) == document_errors(content@),
            string_views(r.warnings@) == document_warnings(content@),
            r.is_valid == (document_errors(content@).len() == 0),
    {
        let mut errors: Vec<String> = Vec::new();
        let mut warnings: Vec<String> = Vec::new();
        if !str_contains(content, "## Introduction") {
            errors.push("Missing Introduction section".to_owned());
        }
        if !str_contains(content, "## Glossary") {
            warnings.push("Missing Glossary section (recommended)".to_owned());
        }
        if !str_contains(content, "## Requirements") {
            errors.push("Missing Requirements section".to_owned());
        }
        let ghost head = string_views(errors@);
        let criteria = Self::extract_acceptance_criteria(content);
        let ghost found = criteria_scan(lines_of(content@)).found;
        let mut k: usize = 0;
        assert(found.subrange(0, 0) =~= Seq::<CriterionSpec>::empty());
        assert(head + criteria_errors(Seq::<CriterionSpec>::empty()) =~= head);
        while k < criteria.len()
            invariant
                criteria_match(criteria@, found),
                k <= criteria@.len(),
                string_views(errors@) == head + criteria_errors(found.subrange(0, k as int)),
            decreases criteria@.len() - k,
        {
            proof {
                assert(found.subrange(0, k + 1).drop_last() =~= found.subrange(0, k as int));
            }
            let ghost before = string_views(errors@);
            match &criteria[k].ears_pattern {
                EarsValidation::Invalid(reason) => {
                    let mut e = "Criterion ".to_owned();
                    e.append(criteria[k].id.as_str());
                    e.append(": ");
                    e.append(reason.as_str());
                    errors.push(e);
                    assert(string_views(errors@) =~= before.push(string_views(errors@).last()));
                },
                EarsValidation::Valid(_) => {},
            }
            k += 1;
        }
        assert(found.subrange(0, criteria@.len() as int) =~= found);
        let is_valid = errors.len() == 0;
        DocumentValidation { is_valid, errors, warnings }
    }
}

/// A task as read from a plan.
pub struct TaskSpec {
    pub id: Seq<char>,
    pub description: Seq<char>,
    pub completed: bool,
}

/// A trimmed line that starts with a check box.
pub open spec fn is_task_line(t: Seq<char>) -> bool {
    starts_with(t, "- [ ]"@) || starts_with(t, "- [x]"@)
}

/// The text after the check box of a trimmed task line.
pub open spec fn task_text(t: Seq<char>) -> Seq<char> {
    if starts_with(t, "- [x]"@) {
        trim(strip_prefixes(t, "- [x]"@))
    } else {
        trim(strip_prefixes(t, "- [ ]"@))
    }
}

/// The task on a line, if it holds one: a check box line without `*`, whose text has an
/// id before its first `.` and a description after it.
pub open spec fn task_of_line(line: Seq<char>) -> Option<TaskSpec> {
    let t = trim(line);
    if is_task_line(t) && !contains_text(t, "*"@) {
        let x = task_text(t);
        match find_char_from(x, '.', 0) {
            Some(k) => Some(
                TaskSpec {
                    id: trim(x.subrange(0, k)),
                    description: trim(x.subrange(k + 1, x.len() as int)),
                    completed: starts_with(t, "- [x]"@),
                },
            ),
            None => None,
        }
    } else {
        None
    }
}

/// The tasks on a sequence of lines, in order.
pub open spec fn tasks_of(ls: Seq<Seq<char>>) -> Seq<TaskSpec>
    decreases ls.len(),
{
    if ls.len() == 0 {
        Seq::empty()
    } else {
        match task_of_line(ls.last()) {
            Some(t) => tasks_of(ls.drop_last()).push(t),
            None => tasks_of(ls.drop_last()),
        }
    }
}

/// The check box written for a status.
pub open spec fn checkbox(status: TaskStatus) -> Seq<char> {
    if status == TaskStatus::Completed {
        "- [x]"@
    } else {
        "- [ ]"@
    }
}


/// A line after the update: the line of the task is rewritten with the new check box,
/// indented by one space per byte of its leading white space; other lines stay.
pub open spec fn updated_line(line: Seq<char>, task_id: Seq<char>, status: TaskStatus) -> Seq<
    char,
> {
    let t = trim(line);
    if is_task_line(t) && contains_text(t, task_id + "."@) {
        spaces(white_prefix_bytes(line)) + checkbox(status) + " "@ + task_text(t)
    } else {
        line
    }
}

/// `r` holds exactly the tasks of the plan.
pub open spec fn tasks_match(r: Seq<Task>, found: Seq<TaskSpec>) -> bool {
    &&& r.len() == found.len()
    &&& forall|k: int|
        0 <= k < r.len() ==> {
            &&& (#[trigger] r[k]).id@ == found[k].id
            &&& r[k].description@ == found[k].description
            &&& r[k].completed == found[k].completed
            &&& r[k].dependencies@.len() == 0
            &&& r[k].requirements_refs@.len() == 0
        }
}

impl TasksManager {
    /// The text after the check box of a trimmed task line.
    fn task_text_of(t: &str) -> (r: String)
        ensures
            r@ == task_text(t@),
    {
        if str_starts_with(t, "- [x]") {
            let s = strip_prefixes_str(t, "- [x]");
            trimmed(s.as_str())
        } else {
            let s = strip_prefixes_str(t, "- [ ]");
            trimmed(s.as_str())
        }
    }

    /// Whether a trimmed line starts with a check box.
    fn is_task_line_str(t: &str) -> (r: bool)
        ensures
            r == is_task_line(t@),
    {
        str_starts_with(t, "- [ ]") || str_starts_with(t, "- [x]")
    }

    /// The tasks of a plan, in order.
    pub fn parse_tasks_from_content(content: &str) -> (r: Vec<Task>)
        ensures
            tasks_match(r@, tasks_of(lines_of(content@))),
    {
        let ls = lines(content);
        let ghost all = lines_of(content@);
        let mut tasks: Vec<Task> = Vec::new();
        let mut i: usize = 0;
        assert(all.subrange(0, 0) =~= Seq::<Seq<char>>::empty());
        while i < ls.len()
            invariant
                string_views(ls@) == all,
                i <= ls@.len(),
                tasks_match(tasks@, tasks_of(all.subrange(0, i as int))),
            decreases ls@.len() - i,
        {
            proof {
                assert(all.subrange(0, i + 1).drop_last() =~= all.subrange(0, i as int));
                assert(all.subrange(0, i + 1).last() == ls@[i as int]@);
            }
            let t = trimmed(ls[i].as_str());
            if Self::is_task_line_str(t.as_str()) && !str_contains(t.as_str(), "*") {
                let completed = str_starts_with(t.as_str(), "- [x]");
                let x = Self::task_text_of(t.as_str());
                let n = x.as_str().unicode_len();
                match find_char(x.as_str(), '.') {
                    Some(k) => {
                        let id = trimmed(x.as_str().substring_char(0, k));
                        let description = trimmed(x.as_str().substring_char(k + 1, n));
                        let ghost before = tasks@;
                        tasks.push(
                            Task {
                                id,
                                description,
                                completed,
                                dependencies: Vec::new(),
                                requirements_refs: Vec::new(),
                            },
                        );
                        proof {
                            assert forall|j: int| 0 <= j < before.len() implies tasks@[j] == before[j] by {}
                        }
                    },
                    None => {},
                }
            }
            i += 1;
        }
        assert(all.subrange(0, ls@.len() as int) =~= all);
        tasks
    }

    /// One line of a plan after the update.
    fn update_line(line: &str, task_id: &str, status: TaskStatus) -> (r: String)
        ensures
            r@ == updated_line(line@, task_id@, status),
    {
        let t = trimmed(line);
        let mut marker = task_id.to_owned();
        marker.append(".");
        if Self::is_task_line_str(t.as_str()) && str_contains(t.as_str(), marker.as_str()) {
            let x = Self::task_text_of(t.as_str());
            let k = leading_white_bytes(line);
            let mut r = repeat_space(k);
            match status {
                TaskStatus::Completed => r.append("- [x]"),
                _ => r.append("- [ ]"),
            }
            r.append(" ");
            r.append(x.as_str());
            r
        } else {
            line.to_owned()
        }
    }

    /// The plan with the check box of the task `task_id` set for `status`: ticked for
    /// Completed, empty otherwise. Lines are joined with line feeds.
    pub fn update_task_status(content: &str, task_id: &str, status: TaskStatus) -> (r: String)
        ensures
            r@ == join(
                lines_of(content@).map_values(|l: Seq<char>| updated_line(l, task_id@, status)),
                "\n"@,
            ),
    {
        let ls = lines(content);
        let ghost all = lines_of(content@);
        let ghost f = |l: Seq<char>| updated_line(l, task_id@, status);
        let mut out = String::new();
        let mut i: usize = 0;
        assert(all.subrange(0, 0).map_values(f) =~= Seq::<Seq<char>>::empty());
        while i < ls.len()
            invariant
                string_views(ls@) == all,
                i <= ls@.len(),
                f == (|l: Seq<char>| updated_line(l, task_id@, status)),
                out@ == join(all.subrange(0, i as int).map_values(f), "\n"@),
            decreases ls@.len() - i,
        {
            let ghost prev = all.subrange(0, i as int).map_values(f);
            let ghost next = all.subrange(0, i + 1).map_values(f);
            assert(next.drop_last() =~= prev);
            assert(next.last() == f(ls@[i as int]@));
            let u = Self::update_line(ls[i].as_str(), task_id, status);
            if i > 0 {
                out.append("\n");
            }
            out.append(u.as_str());
            i += 1;
        }
        assert(all.subrange(0, ls@.len() as int) =~= all);
        out
    }
}

/// The kinds of correctness property a design names.
#[derive(Debug, Clone, Copy, PartialEq, Eq, Structural)]
pub enum PropertyType {
    Invariant,
    RoundTrip,
    Idempotence,
    Metamorphic,
    ModelBased,
    Confluence,
    ErrorCondition,
}

/// A correctness property of a design.
#[derive(Debug, Clone)]
pub struct CorrectnessProperty {
    pub id: String,
    pub name: String,
    pub description: String,
    pub property_type: PropertyType,
    pub requirements_refs: Vec<String>,
}

/// The verdict on a design document.
#[derive(Debug, Clone)]
pub struct DesignValidation {
    pub is_valid: bool,
    pub errors: Vec<String>,
    pub warnings: Vec<String>,
}

/// Writes and checks design documents.
pub struct DesignManager;

/// The design template before the feature name.
pub open spec fn design_head() -> Seq<char> {
    "# Design Document: "@
}

/// The design template after the feature name.
pub open spec fn design_tail() -> Seq<char> {
    "\n\n## Overview\n\n[Feature overview and purpose]\n\n## Architecture\n\n[High-level architecture description]\n\n## Components and Interfaces\n\n[Component descriptions and interfaces]\n\n## Data Models\n\n[Data structures and models]\n\n## Correctness Properties\n\n*A property is a characteristic or behavior that should hold true across all valid executions of a system.*\n\nProperty 1: [Property description]\n*For any* [input domain], [expected behavior]\n**Validates: Requirements X.Y**\n\n## Error Handling\n\n[Error handling strategies]\n\n## Testing Strategy\n\n[Testing approach including unit and property-based tests]\n"@
}

/// The kind of property a criterion suggests, from its lower-case text.
pub open spec fn property_type_of(l: Seq<char>) -> PropertyType {
    if contains_text(l, "round"@) && contains_text(l, "trip"@) {
        PropertyType::RoundTrip
    } else if contains_text(l, "invariant"@) || contains_text(l, "preserve"@) {
        PropertyType::Invariant
    } else if contains_text(l, "idempotent"@) || contains_text(l, "same result"@) {
        PropertyType::Idempotence
    } else if contains_text(l, "error"@) || contains_text(l, "fail"@) {
        PropertyType::ErrorCondition
    } else if contains_text(l, "order"@) && contains_text(l, "independent"@) {
        PropertyType::Confluence
    } else if contains_text(l, "model"@) || contains_text(l, "reference"@) {
        PropertyType::ModelBased
    } else {
        PropertyType::Metamorphic
    }
}

impl DesignManager {
    /// A design document template for a feature.
    pub fn generate_design_template(feature_name: &str) -> (r: String)
        ensures
            r@ == design_head() + feature_name@ + design_tail(),
    {
        let mut r = "# Design Document: ".to_owned();
        r.append(feature_name);
        r.append("\n\n## Overview\n\n[Feature overview and purpose]\n\n## Architecture\n\n[High-level architecture description]\n\n## Components and Interfaces\n\n[Component descriptions and interfaces]\n\n## Data Models\n\n[Data structures and models]\n\n## Correctness Properties\n\n*A property is a characteristic or behavior that should hold true across all valid executions of a system.*\n\nProperty 1: [Property description]\n*For any* [input domain], [expected behavior]\n**Validates: Requirements X.Y**\n\n## Error Handling\n\n[Error handling strategies]\n\n## Testing Strategy\n\n[Testing approach including unit and property-based tests]\n");
        r
    }

    /// Whether a property text has both a `*For any*` statement and a requirements
    /// reference.
    pub fn validate_property_format(property: &str) -> (r: bool)
        ensures
            r == (contains_text(property@, "*For any*"@) && contains_text(
                property@,
                "**Validates: Requirements"@,
            )),
    {
        str_contains(property, "*For any*") && str_contains(property, "**Validates: Requirements")
    }

    /// The kind of property a criterion suggests, whatever its case.
    pub fn determine_property_type(criterion_text: &str) -> (r: PropertyType)
        ensures
            r == property_type_of(lower_of(criterion_text@)),
    {
        let lower = to_lower(criterion_text);
        Self::property_type_of_lower(lower.as_str())
    }

    /// The kind of property a criterion suggests, from its text already in lower case.
    pub fn property_type_of_lower(l: &str) -> (r: PropertyType)
        ensures
            r == property_type_of(l@),
    {
        if str_contains(l, "round") && str_contains(l, "trip") {
            PropertyType::RoundTrip
        } else if str_contains(l, "invariant") || str_contains(l, "preserve") {
            PropertyType::Invariant
        } else if str_contains(l, "idempotent") || str_contains(l, "same result") {
            PropertyType::Idempotence
        } else if str_contains(l, "error") || str_contains(l, "fail") {
            PropertyType::ErrorCondition
        } else if str_contains(l, "order") && str_contains(l, "independent") {
            PropertyType::Confluence
        } else if str_contains(l, "model") || str_contains(l, "reference") {
            PropertyType::ModelBased
        } else {
            PropertyType::Metamorphic
        }
    }
}

/// A property as the scan of a design finds it.
pub struct PropertySpec {
    pub id: Seq<char>,
    pub name: Seq<char>,
    pub description: Seq<char>,
    pub refs: Seq<Seq<char>>,
}

/// The state of the scan: inside the properties section or not, past its end or not,
/// the property being read and those finished.
pub struct PropertyScan {
    pub in_section: bool,
    pub done: bool,
    pub current: Option<PropertySpec>,
    pub found: Seq<PropertySpec>,
}

/// `found` with the property being read, if any, added.
pub open spec fn push_current(found: Seq<PropertySpec>, current: Option<PropertySpec>) -> Seq<
    PropertySpec,
> {
    match current {
        Some(p) => found.push(p),
        None => found,
    }
}

/// The property a `Property <n>: <name>` line starts: its id is the part before the
/// first colon, trimmed, spaces as underscores, in lower case; its name the rest, trimmed.
pub open spec fn property_header(line: Seq<char>) -> Option<PropertySpec> {
    if starts_with(line, "Property "@) {
        match find_char_from(line, ':', 0) {
            Some(k) => Some(
                PropertySpec {
                    id: lower_of(replace_char(trim(line.subrange(0, k)), ' ', '_')),
                    name: trim(line.subrange(k + 1, line.len() as int)),
                    description: Seq::empty(),
                    refs: Seq::empty(),
                },
            ),
            None => None,
        }
    } else {
        None
    }
}

/// The requirement references of a `**Validates: Requirements ...**` line.
pub open spec fn validates_refs(line: Seq<char>) -> Seq<Seq<char>> {
    split_on(
        trim(strip_suffixes(strip_prefixes(line, "**Validates: Requirements"@), "**"@)),
        ',',
    ).map_values(|x: Seq<char>| trim(x))
}

/// The property being read, after a line of its body.
pub open spec fn property_body(p: PropertySpec, line: Seq<char>) -> PropertySpec {
    let p1 = if starts_with(line, "*For any*"@) {
        PropertySpec { description: line, ..p }
    } else {
        p
    };
    if starts_with(line, "**Validates: Requirements"@) {
        PropertySpec { refs: validates_refs(line), ..p1 }
    } else {
        p1
    }
}

/// One line of the scan over a design.
pub open spec fn property_step(st: PropertyScan, line: Seq<char>) -> PropertyScan {
    if st.done {
        st
    } else if starts_with(line, "## Correctness Properties"@) {
        PropertyScan { in_section: true, ..st }
    } else if st.in_section && starts_with(line, "## "@) {
        PropertyScan { done: true, current: None, found: push_current(st.found, st.current), ..st }
    } else if st.in_section {
        let st1 = match property_header(line) {
            Some(p) => PropertyScan {
                current: Some(p),
                found: push_current(st.found, st.current),
                ..st
            },
            None => st,
        };
        match st1.current {
            Some(p) => PropertyScan { current: Some(property_body(p, line)), ..st1 },
            None => st1,
        }
    } else {
        st
    }
}

/// The scan over a sequence of lines.
pub open spec fn property_scan(ls: Seq<Seq<char>>) -> PropertyScan
    decreases ls.len(),
{
    if ls.len() == 0 {
        PropertyScan { in_section: false, done: false, current: None, found: Seq::empty() }
    } else {
        property_step(property_scan(ls.drop_last()), ls.last())
    }
}

/// The properties of a design document, in order.
pub open spec fn properties_of(content: Seq<char>) -> Seq<PropertySpec> {
    let st = property_scan(lines_of(content));
    push_current(st.found, st.current)
}

/// `p` is the property `q`, of the default kind.
pub open spec fn property_matches(p: CorrectnessProperty, q: PropertySpec) -> bool {
    &&& p.id@ == q.id
    &&& p.name@ == q.name
    &&& p.description@ == q.description
    &&& string_views(p.requirements_refs@) == q.refs
    &&& p.property_type == PropertyType::Metamorphic
}

pub open spec fn properties_match(r: Seq<CorrectnessProperty>, q: Seq<PropertySpec>) -> bool {
    r.len() == q.len() && forall|k: int| 0 <= k < r.len() ==> property_matches(#[trigger] r[k], q[k])
}

/// Adds the property being read, if any, to those finished.
fn push_property(found: &mut Vec<CorrectnessProperty>, current: Option<CorrectnessProperty>, q: Ghost<Seq<PropertySpec>>, cq: Ghost<Option<PropertySpec>>)
    requires
        properties_match(old(found)@, q@),
        match current {
            Some(p) => cq@ matches Some(c) && property_matches(p, c),
            None => cq@ is None,
        },
    ensures
        properties_match(final(found)@, push_current(q@, cq@)),
{
    match current {
        Some(p) => {
            let ghost before = found@;
            found.push(p);
            proof {
                assert forall|k: int| 0 <= k < before.len() implies found@[k] == before[k] by {}
            }
        },
        None => {},
    }
}

impl DesignManager {
    /// The property a header line starts, if it is one.
    fn header_of(line: &str) -> (r: Option<CorrectnessProperty>)
        ensures
            match property_header(line@) {
                Some(q) => r matches Some(p) && property_matches(p, q),
                None => r is None,
            },
    {
        if !str_starts_with(line, "Property ") {
            return None;
        }
        match find_char(line, ':') {
            Some(k) => {
                let n = line.unicode_len();
                let head = trimmed(line.substring_char(0, k));
                let underscored = replace_char_str(head.as_str(), ' ', '_');
                let id = to_lower(underscored.as_str());
                let name = trimmed(line.substring_char(k + 1, n));
                let p = CorrectnessProperty {
                    id,
                    name,
                    description: String::new(),
                    property_type: PropertyType::Metamorphic,
                    requirements_refs: Vec::new(),
                };
                assert(string_views(p.requirements_refs@) =~= Seq::<Seq<char>>::empty());
                Some(p)
            },
            None => None,
        }
    }

    /// The property being read, after a line of its body.
    fn with_body(p: CorrectnessProperty, line: &str, q: Ghost<PropertySpec>) -> (r: CorrectnessProperty)
        requires
            property_matches(p, q@),
        ensures
            property_matches(r, property_body(q@, line@)),
    {
        let mut p = p;
        if str_starts_with(line, "*For any*") {
            p.description = line.to_owned();
        }
        if str_starts_with(line, "**Validates: Requirements") {
            let a = strip_prefixes_str(line, "**Validates: Requirements");
            let b = strip_suffixes_str(a.as_str(), "**");
            let c = trimmed(b.as_str());
            p.requirements_refs = split_trimmed(c.as_str(), ',');
        }
        p
    }

    /// The correctness properties of a design document: each `Property <n>: <name>` line
    /// of the Correctness Properties section starts one; its `*For any*` line is its
    /// description and its `**Validates: Requirements ...**` line lists its references.
    pub fn extract_correctness_properties(content: &str) -> (r: Vec<CorrectnessProperty>)
        ensures
            properties_match(r@, properties_of(content@)),
    {
        let ls = lines(content);
        let ghost all = lines_of(content@);
        let mut found: Vec<CorrectnessProperty> = Vec::new();
        let mut current: Option<CorrectnessProperty> = None;
        let mut in_section = false;
        let mut done = false;
        let ghost mut q: Seq<PropertySpec> = Seq::empty();
        let ghost mut cq: Option<PropertySpec> = None;
        let mut i: usize = 0;
        assert(all.subrange(0, 0) =~= Seq::<Seq<char>>::empty());
        while i < ls.len()
            invariant
                string_views(ls@) == all,
                i <= ls@.len(),
                properties_match(found@, q),
                match current {
                    Some(p) => cq matches Some(c) && property_matches(p, c),
                    None => cq is None,
                },
                property_scan(all.subrange(0, i as int)) == (PropertyScan {
                    in_section,
                    done,
                    current: cq,
                    found: q,
                }),
            decreases ls@.len() - i,
        {
            proof {
                assert(all.subrange(0, i + 1).drop_last() =~= all.subrange(0, i as int));
                assert(all.subrange(0, i + 1).last() == ls@[i as int]@);
            }
            let line = ls[i].as_str();
            if done {
            } else if str_starts_with(line, "## Correctness Properties") {
                in_section = true;
            } else if in_section && str_starts_with(line, "## ") {
                let taken = current;
                current = None;
                push_property(&mut found, taken, Ghost(q), Ghost(cq));
                proof {
                    q = push_current(q, cq);
                    cq = None;
                }
                done = true;
            } else if in_section {
                match Self::header_of(line) {
                    Some(p) => {
                        let taken = current;
                        push_property(&mut found, taken, Ghost(q), Ghost(cq));
                        proof {
                            q = push_current(q, cq);
                            cq = property_header(line@);
                        }
                        current = Some(p);
                    },
                    None => {},
                }
                match current {
                    Some(p) => {
                        let ghost c = cq->Some_0;
                        current = Some(Self::with_body(p, line, Ghost(c)));
                        proof {
                            cq = Some(property_body(c, line@));
                        }
                    },
                    None => {},
                }
            }
            i += 1;
        }
        assert(all.subrange(0, ls@.len() as int) =~= all);
        push_property(&mut found, current, Ghost(q), Ghost(cq));
        found
    }
}

/// The sections a design document must have, in order.
pub open spec fn design_sections() -> Seq<Seq<char>> {
    seq![
        "## Overview"@,
        "## Architecture"@,
        "## Components and Interfaces"@,
        "## Data Models"@,
        "## Correctness Properties"@,
        "## Error Handling"@,
        "## Testing Strategy"@,
    ]
}

/// An error for each section of `secs` that the content lacks, in order.
pub open spec fn missing_sections(content: Seq<char>, secs: Seq<Seq<char>>) -> Seq<Seq<char>>
    decreases secs.len(),
{
    if secs.len() == 0 {
        Seq::empty()
    } else {
        let prev = missing_sections(content, secs.drop_last());
        if !contains_text(content, secs.last()) {
            prev.push("Missing required section: "@ + secs.last())
        } else {
            prev
        }
    }
}

/// An error for each property without requirement references, in order.
pub open spec fn property_errors(ps: Seq<PropertySpec>) -> Seq<Seq<char>>
    decreases ps.len(),
{
    if ps.len() == 0 {
        Seq::empty()
    } else {
        let prev = property_errors(ps.drop_last());
        if ps.last().refs.len() == 0 {
            prev.push("Property '"@ + ps.last().name + "' missing requirements references"@)
        } else {
            prev
        }
    }
}

/// A warning for each property without description, in order.
pub open spec fn property_warnings(ps: Seq<PropertySpec>) -> Seq<Seq<char>>
    decreases ps.len(),
{
    if ps.len() == 0 {
        Seq::empty()
    } else {
        let prev = property_warnings(ps.drop_last());
        if ps.last().description.len() == 0 {
            prev.push("Property '"@ + ps.last().name + "' missing description"@)
        } else {
            prev
        }
    }
}

/// The errors of a design document: missing sections, then properties without references.
pub open spec fn design_errors(content: Seq<char>) -> Seq<Seq<char>> {
    missing_sections(content, design_sections()) + property_errors(properties_of(content))
}

/// The warnings of a design document: no property at all, then properties without
/// description.
pub open spec fn design_warnings(content: Seq<char>) -> Seq<Seq<char>> {
    let none: Seq<Seq<char>> = if properties_of(content).len() == 0 {
        seq!["No correctness properties found"@]
    } else {
        seq![]
    };
    none + property_warnings(properties_of(content))
}

impl DesignManager {
    /// Checks a design document: all seven sections are required, every property needs
    /// requirement references, and a description is recommended.
    pub fn validate_document(content: &str) -> (r: DesignValidation)
        ensures
            string_views(r.errors@) == design_errors(content@),
            string_views(r.warnings@) == design_warnings(content@),
            r.is_valid == (design_errors(content@).len() == 0),
    {
        let sections = vec![
            "## Overview",
            "## Architecture",
            "## Components and Interfaces",
            "## Data Models",
            "## Correctness Properties",
            "## Error Handling",
            "## Testing Strategy",
        ];
        assert(texts(sections@) =~= design_sections());
        let mut errors: Vec<String> = Vec::new();
        let mut j: usize = 0;
        assert(texts(sections@).subrange(0, 0) =~= Seq::<Seq<char>>::empty());
        assert(string_views(errors@) =~= Seq::<Seq<char>>::empty());
        while j < sections.len()
            invariant
                texts(sections@) == design_sections(),
                j <= sections@.len(),
                string_views(errors@) == missing_sections(
                    content@,
                    design_sections().subrange(0, j as int),
                ),
            decreases sections@.len() - j,
        {
            proof {
                assert(design_sections().subrange(0, j + 1).drop_last() =~= design_sections().subrange(
                    0,
                    j as int,
                ));
                assert(design_sections()[j as int] == sections@[j as int]@);
            }
            if !str_contains(content, sections[j]) {
                let mut e = "Missing required section: ".to_owned();
                e.append(sections[j]);
                let ghost before = string_views(errors@);
                errors.push(e);
                assert(string_views(errors@) =~= before.push(string_views(errors@).last()));
            }
            j += 1;
        }
        assert(design_sections().subrange(0, 7) =~= design_sections());
        let ghost head = string_views(errors@);
        let properties = Self::extract_correctness_properties(content);
        let ghost ps = properties_of(content@);
        let mut warnings: Vec<String> = Vec::new();
        if properties.len() == 0 {
            warnings.push("No correctness properties found".to_owned());
        }
        let ghost whead = string_views(warnings@);
        assert(whead =~= (if ps.len() == 0 {
            seq!["No correctness properties found"@]
        } else {
            Seq::<Seq<char>>::empty()
        }));
        let mut k: usize = 0;
        assert(ps.subrange(0, 0) =~= Seq::<PropertySpec>::empty());
        assert(head + property_errors(Seq::<PropertySpec>::empty()) =~= head);
        assert(whead + property_warnings(Seq::<PropertySpec>::empty()) =~= whead);
        while k < properties.len()
            invariant
                properties_match(properties@, ps),
                k <= properties@.len(),
                string_views(errors@) == head + property_errors(ps.subrange(0, k as int)),
                string_views(warnings@) == whead + property_warnings(ps.subrange(0, k as int)),
            decreases properties@.len() - k,
        {
            proof {
                assert(ps.subrange(0, k + 1).drop_last() =~= ps.subrange(0, k as int));
                assert(property_matches(properties@[k as int], ps[k as int]));
                assert(string_views(properties@[k as int].requirements_refs@).len()
                    == properties@[k as int].requirements_refs@.len());
            }
            let p = &properties[k];
            if p.description.as_str().unicode_len() == 0 {
                let mut w = "Property '".to_owned();
                w.append(p.name.as_str());
                w.append("' missing description");
                let ghost before = string_views(warnings@);
                warnings.push(w);
                assert(string_views(warnings@) =~= before.push(string_views(warnings@).last()));
            }
            if p.requirements_refs.len() == 0 {
                let mut e = "Property '".to_owned();
                e.append(p.name.as_str());
                e.append("' missing requirements references");
                let ghost before = string_views(errors@);
                errors.push(e);
                assert(string_views(errors@) =~= before.push(string_views(errors@).last()));
            }
            k += 1;
        }
        assert(ps.subrange(0, properties@.len() as int) =~= ps);
        let is_valid = errors.len() == 0;
        DesignValidation { is_valid, errors, warnings }
    }
}

/// A design section as the plan generator reads it: its name and its bullet details.
pub struct SectionSpec {
    pub name: Seq<char>,
    pub details: Seq<Seq<char>>,
}

/// The state of the scan over a design: the section being read and those finished.
pub struct SectionScan {
    pub current: Option<SectionSpec>,
    pub found: Seq<SectionSpec>,
}

/// A line that opens a section for implementation tasks: a `## ` header other than the
/// correctness properties and the testing strategy.
pub open spec fn opens_section(line: Seq<char>) -> bool {
    starts_with(line, "## "@) && !contains_text(line, "Correctness Properties"@) && !contains_text(
        line,
        "Testing Strategy"@,
    )
}

pub open spec fn push_section(found: Seq<SectionSpec>, current: Option<SectionSpec>) -> Seq<
    SectionSpec,
> {
    match current {
        Some(c) => found.push(c),
        None => found,
    }
}

/// One line of the scan: a header opens a section, and within one each `- ` bullet is a
/// detail.
pub open spec fn section_step(st: SectionScan, line: Seq<char>) -> SectionScan {
    let st1 = if opens_section(line) {
        SectionScan {
            current: Some(
                SectionSpec { name: trim(strip_prefixes(line, "## "@)), details: Seq::empty() },
            ),
            found: push_section(st.found, st.current),
        }
    } else {
        st
    };
    match st1.current {
        Some(sec) => if starts_with(trim(line), "- "@) {
            SectionScan {
                current: Some(
                    SectionSpec {
                        details: sec.details.push(strip_prefixes(trim(line), "- "@)),
                        ..sec
                    },
                ),
                ..st1
            }
        } else {
            st1
        },
        None => st1,
    }
}

pub open spec fn section_scan(ls: Seq<Seq<char>>) -> SectionScan
    decreases ls.len(),
{
    if ls.len() == 0 {
        SectionScan { current: None, found: Seq::empty() }
    } else {
        section_step(section_scan(ls.drop_last()), ls.last())
    }
}

/// A section that gets implementation tasks: not the overview, error handling or testing.
pub open spec fn is_task_section(sec: SectionSpec) -> bool {
    sec.name != "Overview"@ && sec.name != "Error Handling"@ && sec.name != "Testing Strategy"@
}

/// The sections of a design that get implementation tasks, in order.
pub open spec fn design_sections_of(content: Seq<char>) -> Seq<SectionSpec> {
    let st = section_scan(lines_of(content));
    push_section(st.found, st.current).filter(|sec: SectionSpec| is_task_section(sec))
}

/// The properties that a section's tasks test: those that reference `TBD`.
pub open spec fn tbd_properties(ps: Seq<PropertySpec>) -> Seq<PropertySpec> {
    ps.filter(|p: PropertySpec| p.refs.contains("TBD"@))
}

/// The property test task `n.i` for a property.
pub open spec fn property_test_text(n: nat, i: nat, p: PropertySpec) -> Seq<char> {
    "- [ ]* "@ + decimal(n) + "."@ + decimal(i) + " Write property test for "@ + lower_of(p.name)
        + "\n"@ + "  - **Property "@ + decimal(i) + ": "@ + p.name + "**\n"@
        + "  - **Validates: Requirements "@ + join(p.refs, ", "@) + "**\n\n"@
}

/// The property test tasks of task `n`, numbered from 1.
pub open spec fn property_tests_text(n: nat, ps: Seq<PropertySpec>) -> Seq<char>
    decreases ps.len(),
{
    if ps.len() == 0 {
        Seq::empty()
    } else {
        property_tests_text(n, ps.drop_last()) + property_test_text(n, ps.len(), ps.last())
    }
}

/// The bullet lines of a section's details.
pub open spec fn details_text(ds: Seq<Seq<char>>) -> Seq<char>
    decreases ds.len(),
{
    if ds.len() == 0 {
        Seq::empty()
    } else {
        details_text(ds.drop_last()) + "  - "@ + ds.last() + "\n"@
    }
}

/// Task `n`, which implements a section, with its property test tasks.
pub open spec fn section_task_text(n: nat, sec: SectionSpec, ps: Seq<PropertySpec>) -> Seq<char> {
    "- [ ] "@ + decimal(n) + ". Implement "@ + lower_of(sec.name) + "\n"@ + details_text(
        sec.details,
    ) + "  - _Requirements: TBD_\n\n"@ + property_tests_text(n, tbd_properties(ps))
}

/// The tasks of the sections, numbered from 2.
pub open spec fn sections_text(secs: Seq<SectionSpec>, ps: Seq<PropertySpec>) -> Seq<char>
    decreases secs.len(),
{
    if secs.len() == 0 {
        Seq::empty()
    } else {
        sections_text(secs.drop_last(), ps) + section_task_text(secs.len() + 1, secs.last(), ps)
    }
}

/// The first task of a plan made from a design.
pub open spec fn plan_head() -> Seq<char> {
    "# Implementation Plan\n\n- [ ] 1. Set up project structure and dependencies\n  - Create directory structure and build configuration\n  - Set up testing framework and dependencies\n  - Configure development environment\n  - _Requirements: 1.1_\n\n"@
}

/// The closing tasks, numbered from `m`.
pub open spec fn plan_tail(m: nat) -> Seq<char> {
    "- [ ] "@ + decimal(m) + ". Checkpoint - Ensure all tests pass\n"@
        + "  - Ensure all tests pass, ask the user if questions arise.\n\n"@ + "- [ ] "@ + decimal(
        m + 1,
    )
        + ". Integration and finalization\n  - Integrate all components\n  - Perform end-to-end testing\n  - Add documentation and examples\n  - _Requirements: All_\n\n- [ ] "@
        + decimal(m + 2)
        + ". Final Checkpoint - Ensure all tests pass\n  - Ensure all tests pass, ask the user if questions arise.\n"@
}

/// The plan made from a design.
pub open spec fn plan_from_design(content: Seq<char>) -> Seq<char> {
    let secs = design_sections_of(content);
    plan_head() + sections_text(secs, properties_of(content)) + plan_tail(secs.len() + 2)
}

/// A design section as read.
struct DesignSection {
    name: String,
    details: Vec<String>,
}

spec fn section_matches(d: DesignSection, s: SectionSpec) -> bool {
    d.name@ == s.name && string_views(d.details@) == s.details
}

spec fn sections_match(r: Seq<DesignSection>, q: Seq<SectionSpec>) -> bool {
    r.len() == q.len() && forall|k: int| 0 <= k < r.len() ==> section_matches(#[trigger] r[k], q[k])
}

/// Whether a property references `TBD`.
fn references_tbd(p: &CorrectnessProperty, q: Ghost<PropertySpec>) -> (r: bool)
    requires
        property_matches(*p, q@),
    ensures
        r == q@.refs.contains("TBD"@),
{
    let ghost v = string_views(p.requirements_refs@);
    let mut i: usize = 0;
    while i < p.requirements_refs.len()
        invariant
            v == string_views(p.requirements_refs@),
            v == q@.refs,
            i <= p.requirements_refs@.len(),
            forall|k: int| 0 <= k < i ==> v[k] != "TBD"@,
        decreases p.requirements_refs@.len() - i,
    {
        if crate::text::same_text(p.requirements_refs[i].as_str(), "TBD") {
            assert(v[i as int] == "TBD"@);
            return true;
        }
        i += 1;
    }
    false
}

impl TasksManager {
    /// The sections of a design that get implementation tasks, in order.
    fn extract_design_sections(design_content: &str) -> (r: Vec<DesignSection>)
        ensures
            sections_match(r@, design_sections_of(design_content@)),
    {
        let ls = lines(design_content);
        let ghost all = lines_of(design_content@);
        let mut found: Vec<DesignSection> = Vec::new();
        let mut current: Option<DesignSection> = None;
        let ghost mut q: Seq<SectionSpec> = Seq::empty();
        let ghost mut cq: Option<SectionSpec> = None;
        let mut i: usize = 0;
        assert(all.subrange(0, 0) =~= Seq::<Seq<char>>::empty());
        while i < ls.len()
            invariant
                string_views(ls@) == all,
                i <= ls@.len(),
                sections_match(found@, q),
                match current {
                    Some(d) => cq matches Some(c) && section_matches(d, c),
                    None => cq is None,
                },
                section_scan(all.subrange(0, i as int)) == (SectionScan { current: cq, found: q }),
            decreases ls@.len() - i,
        {
            proof {
                assert(all.subrange(0, i + 1).drop_last() =~= all.subrange(0, i as int));
                assert(all.subrange(0, i + 1).last() == ls@[i as int]@);
            }
            let line = ls[i].as_str();
            if str_starts_with(line, "## ") && !str_contains(line, "Correctness Properties")
                && !str_contains(line, "Testing Strategy") {
                let taken = current;
                match taken {
                    Some(d) => {
                        let ghost before = found@;
                        found.push(d);
                        proof {
                            assert forall|k: int| 0 <= k < before.len() implies found@[k] == before[k] by {}
                        }
                    },
                    None => {},
                }
                proof {
                    q = push_section(q, cq);
                }
                let stripped = strip_prefixes_str(line, "## ");
                let name = trimmed(stripped.as_str());
                let details: Vec<String> = Vec::new();
                assert(string_views(details@) =~= Seq::<Seq<char>>::empty());
                current = Some(DesignSection { name, details });
                proof {
                    cq = Some(SectionSpec { name: trim(strip_prefixes(line@, "## "@)), details: Seq::empty() });
                }
            }
            let t = trimmed(line);
            if str_starts_with(t.as_str(), "- ") {
                match current {
                    Some(d) => {
                        let mut d = d;
                        let detail = strip_prefixes_str(t.as_str(), "- ");
                        let ghost before = d.details@;
                        d.details.push(detail);
                        proof {
                            assert(string_views(d.details@) =~= string_views(before).push(
                                strip_prefixes(trim(line@), "- "@),
                            ));
                            let c = cq->Some_0;
                            cq = Some(
                                SectionSpec {
                                    details: c.details.push(strip_prefixes(trim(line@), "- "@)),
                                    ..c
                                },
                            );
                        }
                        current = Some(d);
                    },
                    None => {
                        current = None;
                    },
                }
            }
            i += 1;
        }
        assert(all.subrange(0, ls@.len() as int) =~= all);
        match current {
            Some(d) => {
                let ghost before = found@;
                found.push(d);
                proof {
                    assert forall|k: int| 0 <= k < before.len() implies found@[k] == before[k] by {}
                }
            },
            None => {},
        }
        proof {
            q = push_section(q, cq);
        }
        let ghost f = |sec: SectionSpec| is_task_section(sec);
        let mut kept: Vec<DesignSection> = Vec::new();
        let mut j: usize = 0;
        assert(q.subrange(0, 0) =~= Seq::<SectionSpec>::empty());
        proof {
            reveal(Seq::filter);
        }
        while j < found.len()
            invariant
                sections_match(found@, q),
                f == (|sec: SectionSpec| is_task_section(sec)),
                j <= found@.len(),
                sections_match(kept@, q.subrange(0, j as int).filter(f)),
            decreases found@.len() - j,
        {
            let ghost s0 = q.subrange(0, j as int);
            let ghost s1 = q.subrange(0, j + 1);
            proof {
                reveal(Seq::filter);
                assert(s1.drop_last() =~= s0);
                assert(s1.last() == q[j as int]);
                assert(section_matches(found@[j as int], q[j as int]));
            }
            let name = found[j].name.as_str();
            let keep = !crate::text::same_text(name, "Overview") && !crate::text::same_text(
                name,
                "Error Handling",
            ) && !crate::text::same_text(name, "Testing Strategy");
            if keep {
                let d = DesignSection {
                    name: found[j].name.clone(),
                    details: clone_texts(&found[j].details),
                };
                let ghost before = kept@;
                kept.push(d);
                proof {
                    assert forall|k: int| 0 <= k < before.len() implies kept@[k] == before[k] by {}
                }
            }
            j += 1;
        }
        assert(q.subrange(0, found@.len() as int) =~= q);
        kept
    }
}

/// A copy of a list of texts.
fn clone_texts(v: &Vec<String>) -> (r: Vec<String>)
    ensures
        r@ == v@,
{
    let mut r: Vec<String> = Vec::new();
    let mut i: usize = 0;
    while i < v.len()
        invariant
            i <= v@.len(),
            r@ == v@.subrange(0, i as int),
        decreases v@.len() - i,
    {
        r.push(v[i].clone());
        i += 1;
    }
    assert(v@.subrange(0, v@.len() as int) =~= v@);
    r
}

impl TasksManager {
    /// The property test task `n.i` for a property.
    fn property_test(n: u128, i: u128, p: &CorrectnessProperty, q: Ghost<PropertySpec>) -> (r:
        String)
        requires
            property_matches(*p, q@),
        ensures
            r@ == property_test_text(n as nat, i as nat, q@),
    {
        let num = u128_text(n);
        let idx = u128_text(i);
        let lower = to_lower(p.name.as_str());
        let refs = join_texts(&p.requirements_refs, ", ");
        let mut out = "- [ ]* ".to_owned();
        out.append(num.as_str());
        out.append(".");
        out.append(idx.as_str());
        out.append(" Write property test for ");
        out.append(lower.as_str());
        out.append("\n");
        out.append("  - **Property ");
        out.append(idx.as_str());
        out.append(": ");
        out.append(p.name.as_str());
        out.append("**\n");
        out.append("  - **Validates: Requirements ");
        out.append(refs.as_str());
        out.append("**\n\n");
        out
    }

    /// The property test tasks of task `n` for the properties given.
    fn property_tests(n: u128, tbd: &Vec<CorrectnessProperty>, t: Ghost<Seq<PropertySpec>>) -> (r:
        String)
        requires
            properties_match(tbd@, t@),
        ensures
            r@ == property_tests_text(n as nat, t@),
    {
        let mut out = String::new();
        let mut i: usize = 0;
        assert(t@.subrange(0, 0) =~= Seq::<PropertySpec>::empty());
        while i < tbd.len()
            invariant
                properties_match(tbd@, t@),
                i <= tbd@.len(),
                out@ == property_tests_text(n as nat, t@.subrange(0, i as int)),
            decreases tbd@.len() - i,
        {
            let ghost s1 = t@.subrange(0, i + 1);
            assert(s1.drop_last() =~= t@.subrange(0, i as int));
            assert(s1.last() == t@[i as int]);
            assert(property_matches(tbd@[i as int], t@[i as int]));
            let one = Self::property_test(n, i as u128 + 1, &tbd[i], Ghost(t@[i as int]));
            out.append(one.as_str());
            i += 1;
            assert(s1.len() == i);
        }
        assert(t@.subrange(0, tbd@.len() as int) =~= t@);
        out
    }

    /// Task `n`, which implements a section, with its property test tasks.
    fn section_task(
        n: u128,
        sec: &DesignSection,
        s: Ghost<SectionSpec>,
        tbd: &Vec<CorrectnessProperty>,
        ps: Ghost<Seq<PropertySpec>>,
    ) -> (r: String)
        requires
            section_matches(*sec, s@),
            properties_match(tbd@, tbd_properties(ps@)),
        ensures
            r@ == section_task_text(n as nat, s@, ps@),
    {
        let num = u128_text(n);
        let lower = to_lower(sec.name.as_str());
        let mut out = "- [ ] ".to_owned();
        out.append(num.as_str());
        out.append(". Implement ");
        out.append(lower.as_str());
        out.append("\n");
        let ghost ds = s@.details;
        let ghost mid = out@;
        let mut d: usize = 0;
        assert(ds.subrange(0, 0) =~= Seq::<Seq<char>>::empty());
        while d < sec.details.len()
            invariant
                string_views(sec.details@) == ds,
                d <= sec.details@.len(),
                out@ == mid + details_text(ds.subrange(0, d as int)),
            decreases sec.details@.len() - d,
        {
            assert(ds.subrange(0, d + 1).drop_last() =~= ds.subrange(0, d as int));
            assert(ds.subrange(0, d + 1).last() == sec.details@[d as int]@);
            out.append("  - ");
            out.append(sec.details[d].as_str());
            out.append("\n");
            d += 1;
        }
        assert(ds.subrange(0, sec.details@.len() as int) =~= ds);
        out.append("  - _Requirements: TBD_\n\n");
        let tests = Self::property_tests(n, tbd, Ghost(tbd_properties(ps@)));
        out.append(tests.as_str());
        out
    }

    /// The implementation plan for a design: a set-up task, then for each section that
    /// gets tasks (from task 2 on) a task that implements it, with its details and a
    /// property test task for each property that references `TBD`, then a checkpoint,
    /// integration and a final checkpoint. The feature name is not used in it.
    pub fn generate_tasks_from_design(_feature_name: &str, design_content: &str) -> (r: String)
        ensures
            r@ == plan_from_design(design_content@),
    {
        let properties = DesignManager::extract_correctness_properties(design_content);
        let ghost ps = properties_of(design_content@);
        let ghost f = |p: PropertySpec| p.refs.contains("TBD"@);
        let mut tbd: Vec<CorrectnessProperty> = Vec::new();
        let mut j: usize = 0;
        assert(ps.subrange(0, 0) =~= Seq::<PropertySpec>::empty());
        proof {
            reveal(Seq::filter);
        }
        while j < properties.len()
            invariant
                properties_match(properties@, ps),
                f == (|p: PropertySpec| p.refs.contains("TBD"@)),
                j <= properties@.len(),
                properties_match(tbd@, ps.subrange(0, j as int).filter(f)),
            decreases properties@.len() - j,
        {
            let ghost s0 = ps.subrange(0, j as int);
            let ghost s1 = ps.subrange(0, j + 1);
            proof {
                reveal(Seq::filter);
                assert(s1.drop_last() =~= s0);
                assert(s1.last() == ps[j as int]);
                assert(property_matches(properties@[j as int], ps[j as int]));
            }
            if references_tbd(&properties[j], Ghost(ps[j as int])) {
                let p = &properties[j];
                let copy = CorrectnessProperty {
                    id: p.id.clone(),
                    name: p.name.clone(),
                    description: p.description.clone(),
                    property_type: p.property_type,
                    requirements_refs: clone_texts(&p.requirements_refs),
                };
                let ghost before = tbd@;
                tbd.push(copy);
                proof {
                    assert forall|k: int| 0 <= k < before.len() implies tbd@[k] == before[k] by {}
                }
            }
            j += 1;
        }
        assert(ps.subrange(0, properties@.len() as int) =~= ps);
        let ghost t = tbd_properties(ps);
        let sections = Self::extract_design_sections(design_content);
        let ghost secs = design_sections_of(design_content@);
        let mut out = "# Implementation Plan\n\n- [ ] 1. Set up project structure and dependencies\n  - Create directory structure and build configuration\n  - Set up testing framework and dependencies\n  - Configure development environment\n  - _Requirements: 1.1_\n\n".to_owned();
        let mut k: usize = 0;
        assert(secs.subrange(0, 0) =~= Seq::<SectionSpec>::empty());
        while k < sections.len()
            invariant
                sections_match(sections@, secs),
                properties_match(tbd@, t),
                t == tbd_properties(ps),
                k <= sections@.len(),
                out@ == plan_head() + sections_text(secs.subrange(0, k as int), ps),
            decreases sections@.len() - k,
        {
            let ghost s1 = secs.subrange(0, k + 1);
            assert(s1.drop_last() =~= secs.subrange(0, k as int));
            assert(s1.last() == secs[k as int]);
            assert(section_matches(sections@[k as int], secs[k as int]));
            let task = Self::section_task(
                k as u128 + 2,
                &sections[k],
                Ghost(secs[k as int]),
                &tbd,
                Ghost(ps),
            );
            out.append(task.as_str());
            k += 1;
            assert(s1.len() == k);
        }
        assert(secs.subrange(0, sections@.len() as int) =~= secs);
        let m: u128 = sections.len() as u128 + 2;
        let a = u128_text(m);
        let b = u128_text(m + 1);
        let c = u128_text(m + 2);
        out.append("- [ ] ");
        out.append(a.as_str());
        out.append(". Checkpoint - Ensure all tests pass\n");
        out.append("  - Ensure all tests pass, ask the user if questions arise.\n\n");
        out.append("- [ ] ");
        out.append(b.as_str());
        out.append(". Integration and finalization\n  - Integrate all components\n  - Perform end-to-end testing\n  - Add documentation and examples\n  - _Requirements: All_\n\n- [ ] ");
        out.append(c.as_str());
        out.append(". Final Checkpoint - Ensure all tests pass\n  - Ensure all tests pass, ask the user if questions arise.\n");
        out
    }
}

/// Words that never name a property.
pub open spec fn stop_words() -> Seq<Seq<char>> {
    seq!["when"@, "then"@, "shall"@, "the"@, "system"@]
}

/// A cleaned word that may name a property: longer than three bytes, not a stop word.
pub open spec fn is_key_word(c: Seq<char>) -> bool {
    utf8_len(c) > 3 && !stop_words().contains(c)
}

/// The state of choosing key words: those chosen, and whether three were reached.
pub struct NameScan {
    pub keys: Seq<Seq<char>>,
    pub done: bool,
}

pub open spec fn name_step(st: NameScan, w: Seq<char>) -> NameScan {
    if st.done {
        st
    } else {
        let c = lower_of(trim_non_alpha(w));
        if is_key_word(c) {
            NameScan { keys: st.keys.push(c), done: st.keys.len() + 1 >= 3 }
        } else {
            st
        }
    }
}

pub open spec fn name_scan(ws: Seq<Seq<char>>) -> NameScan
    decreases ws.len(),
{
    if ws.len() == 0 {
        NameScan { keys: Seq::empty(), done: false }
    } else {
        name_step(name_scan(ws.drop_last()), ws.last())
    }
}

/// The name of the property a criterion suggests: its first three key words, cleaned of
/// non-letters at both ends and in lower case, joined by spaces.
pub open spec fn property_name(text: Seq<char>) -> Seq<char> {
    let keys = name_scan(words_of(text)).keys;
    if keys.len() == 0 {
        "Generated property"@
    } else {
        join(keys, " "@)
    }
}

/// The description of the property a criterion suggests.
pub open spec fn property_description(text: Seq<char>) -> Seq<char> {
    "Property derived from: "@ + replace_text(
        replace_text(replace_text(replace_text(text, "WHEN"@, "when"@), "THEN"@, "then"@), "THE"@, "the"@),
        "SHALL"@,
        "should"@,
    )
}

/// The property suggested by a criterion with this id and text.
pub open spec fn suggested_property(id: Seq<char>, text: Seq<char>, p: CorrectnessProperty) -> bool {
    &&& p.id@ == "property_"@ + replace_char(id, '.', '_')
    &&& p.name@ == property_name(text)
    &&& p.description@ == property_description(text)
    &&& p.property_type == property_type_of(lower_of(text))
    &&& string_views(p.requirements_refs@) == seq![id]
}

/// The property paragraphs of a design made from criteria, numbered from 1.
pub open spec fn property_paragraphs(found: Seq<CriterionSpec>) -> Seq<char>
    decreases found.len(),
{
    if found.len() == 0 {
        Seq::empty()
    } else {
        let c = found.last();
        property_paragraphs(found.drop_last()) + "Property "@ + decimal(found.len()) + ": "@
            + property_name(c.text) + "\n*For any* "@ + property_description(c.text)
            + "\n**Validates: Requirements "@ + c.id + "**\n\n"@
    }
}

/// A design document made from a requirements document.
pub open spec fn design_from_requirements(feature: Seq<char>, requirements: Seq<char>) -> Seq<
    char,
> {
    "# Design Document: "@ + feature + "\n\n## Overview\n\nThis design document outlines the architecture and implementation approach for "@ + feature + ".\n\n## Architecture\n\n[Architecture will be defined based on requirements analysis]\n\n## Components and Interfaces\n\n[Components will be identified from requirements]\n\n## Data Models\n\n[Data models will be derived from functional requirements]\n\n## Correctness Properties\n\n*A property is a characteristic or behavior that should hold true across all valid executions of a system.*\n\n"@ + property_paragraphs(
        criteria_scan(lines_of(requirements)).found,
    ) + "## Error Handling\n\n[Error handling strategies based on requirements]\n\n## Testing Strategy\n\n### Dual Testing Approach\n\nThe implementation will use both unit testing and property-based testing:\n\n**Unit Testing**\n- Specific examples that demonstrate correct behavior\n- Edge cases and error conditions\n- Integration points between components\n\n**Property-Based Testing**\n- Universal properties that should hold across all inputs\n- Each correctness property will be implemented as a property-based test\n- Minimum 100 iterations per property test\n- Tests will be tagged with property references\n\n**Testing Framework**\n- Unit tests using standard testing framework\n- Property-based tests using appropriate PBT library\n- Each property test tagged with: **Feature: {}, Property N: [property_text]**\n"@
}

impl DesignManager {
    /// The name of the property a criterion suggests.
    fn generate_property_name(criterion_text: &str) -> (r: String)
        ensures
            r@ == property_name(criterion_text@),
    {
        let words = split_words(criterion_text);
        let ghost ws = words_of(criterion_text@);
        let mut keys: Vec<String> = Vec::new();
        let mut done = false;
        let mut i: usize = 0;
        assert(ws.subrange(0, 0) =~= Seq::<Seq<char>>::empty());
        assert(string_views(keys@) =~= Seq::<Seq<char>>::empty());
        proof {
            reveal_strlit("when");
            reveal_strlit("then");
            reveal_strlit("shall");
            reveal_strlit("the");
            reveal_strlit("system");
        }
        while i < words.len()
            invariant
                string_views(words@) == ws,
                i <= words@.len(),
                keys@.len() <= 3,
                done == (keys@.len() >= 3),
                name_scan(ws.subrange(0, i as int)) == (NameScan {
                    keys: string_views(keys@),
                    done,
                }),
            decreases words@.len() - i,
        {
            assert(ws.subrange(0, i + 1).drop_last() =~= ws.subrange(0, i as int));
            assert(ws.subrange(0, i + 1).last() == words@[i as int]@);
            if !done {
                let trimmed_word = trim_non_alphabetic(words[i].as_str());
                let c = to_lower(trimmed_word.as_str());
                let cs = c.as_str();
                let stop = crate::text::same_text(cs, "when") || crate::text::same_text(cs, "then")
                    || crate::text::same_text(cs, "shall") || crate::text::same_text(cs, "the")
                    || crate::text::same_text(cs, "system");
                proof {
                    assert(stop_words().contains(c@) <==> (c@ == "when"@ || c@ == "then"@ || c@
                        == "shall"@ || c@ == "the"@ || c@ == "system"@)) by {
                        if stop_words().contains(c@) {
                            let k = choose|k: int| 0 <= k < 5 && stop_words()[k] == c@;
                        }
                        if c@ == "when"@ { assert(stop_words()[0] == c@); }
                        if c@ == "then"@ { assert(stop_words()[1] == c@); }
                        if c@ == "shall"@ { assert(stop_words()[2] == c@); }
                        if c@ == "the"@ { assert(stop_words()[3] == c@); }
                        if c@ == "system"@ { assert(stop_words()[4] == c@); }
                    }
                }
                if utf8_byte_len(cs) > 3 && !stop {
                    let ghost before = string_views(keys@);
                    keys.push(c);
                    assert(string_views(keys@) =~= before.push(lower_of(trim_non_alpha(ws[i as int]))));
                    done = keys.len() >= 3;
                }
            }
            i += 1;
        }
        assert(ws.subrange(0, words@.len() as int) =~= ws);
        if keys.len() == 0 {
            "Generated property".to_owned()
        } else {
            join_texts(&keys, " ")
        }
    }

    /// The description of the property a criterion suggests: the criterion with its EARS
    /// keywords in lower case and SHALL as should.
    fn generate_property_description(criterion_text: &str) -> (r: String)
        ensures
            r@ == property_description(criterion_text@),
    {
        proof {
            reveal_strlit("WHEN");
            reveal_strlit("THEN");
            reveal_strlit("THE");
            reveal_strlit("SHALL");
        }
        let a = replace_str(criterion_text, "WHEN", "when");
        let b = replace_str(a.as_str(), "THEN", "then");
        let c = replace_str(b.as_str(), "THE", "the");
        let d = replace_str(c.as_str(), "SHALL", "should");
        let mut r = "Property derived from: ".to_owned();
        r.append(d.as_str());
        r
    }

    /// The property each criterion suggests, in order: its id from the criterion's id,
    /// its name and description from the text, its kind from the text's wording, and the
    /// criterion as its one requirement reference.
    pub fn generate_correctness_properties(criteria: &Vec<AcceptanceCriterion>) -> (r: Vec<
        CorrectnessProperty,
    >)
        ensures
            r@.len() == criteria@.len(),
            forall|k: int|
                0 <= k < r@.len() ==> suggested_property(
                    criteria@[k].id@,
                    criteria@[k].text@,
                    #[trigger] r@[k],
                ),
    {
        let mut r: Vec<CorrectnessProperty> = Vec::new();
        let mut i: usize = 0;
        while i < criteria.len()
            invariant
                i <= criteria@.len(),
                r@.len() == i,
                forall|k: int|
                    0 <= k < i ==> suggested_property(
                        criteria@[k].id@,
                        criteria@[k].text@,
                        #[trigger] r@[k],
                    ),
            decreases criteria@.len() - i,
        {
            let c = &criteria[i];
            let mut id = "property_".to_owned();
            let underscored = replace_char_str(c.id.as_str(), '.', '_');
            id.append(underscored.as_str());
            let refs = vec![c.id.clone()];
            assert(string_views(refs@) =~= seq![c.id@]);
            let p = CorrectnessProperty {
                id,
                name: Self::generate_property_name(c.text.as_str()),
                description: Self::generate_property_description(c.text.as_str()),
                property_type: Self::determine_property_type(c.text.as_str()),
                requirements_refs: refs,
            };
            r.push(p);
            i += 1;
        }
        r
    }

    /// A design document for a feature made from its requirements: the template's
    /// sections, with one property paragraph for each acceptance criterion.
    pub fn generate_design_from_requirements(feature_name: &str, requirements_content: &str) -> (r:
        String)
        ensures
            r@ == design_from_requirements(feature_name@, requirements_content@),
    {
        let criteria = RequirementsManager::extract_acceptance_criteria(requirements_content);
        let ghost found = criteria_scan(lines_of(requirements_content@)).found;
        let properties = Self::generate_correctness_properties(&criteria);
        let mut out = "# Design Document: ".to_owned();
        out.append(feature_name);
        out.append("\n\n## Overview\n\nThis design document outlines the architecture and implementation approach for ");
        out.append(feature_name);
        out.append(".\n\n## Architecture\n\n[Architecture will be defined based on requirements analysis]\n\n## Components and Interfaces\n\n[Components will be identified from requirements]\n\n## Data Models\n\n[Data models will be derived from functional requirements]\n\n## Correctness Properties\n\n*A property is a characteristic or behavior that should hold true across all valid executions of a system.*\n\n");
        let ghost head = out@;
        let mut i: usize = 0;
        assert(found.subrange(0, 0) =~= Seq::<CriterionSpec>::empty());
        while i < properties.len()
            invariant
                criteria_match(criteria@, found),
                properties@.len() == criteria@.len(),
                forall|k: int|
                    0 <= k < properties@.len() ==> suggested_property(
                        criteria@[k].id@,
                        criteria@[k].text@,
                        #[trigger] properties@[k],
                    ),
                i <= properties@.len(),
                out@ == head + property_paragraphs(found.subrange(0, i as int)),
            decreases properties@.len() - i,
        {
            assert(found.subrange(0, i + 1).drop_last() =~= found.subrange(0, i as int));
            assert(found.subrange(0, i + 1).last() == found[i as int]);
            assert(suggested_property(criteria@[i as int].id@, criteria@[i as int].text@, properties@[i as int]));
            let p = &properties[i];
            let num = u128_text(i as u128 + 1);
            let refs = join_texts(&p.requirements_refs, ", ");
            proof {
                reveal_strlit(", ");
                assert(join(seq![criteria@[i as int].id@], ", "@) == criteria@[i as int].id@);
            }
            out.append("Property ");
            out.append(num.as_str());
            out.append(": ");
            out.append(p.name.as_str());
            out.append("\n*For any* ");
            out.append(p.description.as_str());
            out.append("\n**Validates: Requirements ");
            out.append(refs.as_str());
            out.append("**\n\n");
            i += 1;
        }
        assert(found.subrange(0, found.len() as int) =~= found);
        out.append("## Error Handling\n\n[Error handling strategies based on requirements]\n\n## Testing Strategy\n\n### Dual Testing Approach\n\nThe implementation will use both unit testing and property-based testing:\n\n**Unit Testing**\n- Specific examples that demonstrate correct behavior\n- Edge cases and error conditions\n- Integration points between components\n\n**Property-Based Testing**\n- Universal properties that should hold across all inputs\n- Each correctness property will be implemented as a property-based test\n- Minimum 100 iterations per property test\n- Tests will be tagged with property references\n\n**Testing Framework**\n- Unit tests using standard testing framework\n- Property-based tests using appropriate PBT library\n- Each property test tagged with: **Feature: {}, Property N: [property_text]**\n");
        out
    }
}

} // verus!

use vstd::prelude::*;
use crate::text::{contains_text, is_blank, is_blank_str, str_contains};

verus! {

/// Coarse safety classification of a shell command.
#[derive(Debug, Clone, Copy, PartialEq, Eq, Structural)]
pub enum RiskLevel {
    Low,
    Medium,
    High,
}

/// Why a command was refused before it could be proposed.
#[derive(Debug, Clone, PartialEq, Eq)]
pub enum ValidationError {
    /// The command is empty or white space only.
    EmptyCommand,
    /// The command holds a literal of the deny-list (the literal is carried).
    ForbiddenPattern(String),
}

/// The deny-list: fork bomb, deletion of the root, filesystem formatting.
pub open spec fn forbidden_patterns() -> Seq<Seq<char>> {
    seq![":(){ :|:& };:"@, "rm -rf /"@, "mkfs"@]
}

/// Literals that make a command high risk.
pub open spec fn high_risk_patterns() -> Seq<Seq<char>> {
    seq!["rm -rf"@, "sudo"@, "chmod 777"@, "dd if="@, "mkfs"@, "> /dev/"@]
}

/// Literals that make a command medium risk.
pub open spec fn medium_risk_patterns() -> Seq<Seq<char>> {
    seq!["rm "@, "mv "@, "cp "@, "chmod"@, "chown"@, "kill"@, "pkill"@]
}

/// The views of a list of string slices.
pub open spec fn texts(v: Seq<&str>) -> Seq<Seq<char>> {
    v.map_values(|p: &str| p@)
}

/// Index of the first pattern, from `i` on, that occurs in `s`.
pub open spec fn first_hit_from(s: Seq<char>, pats: Seq<Seq<char>>, i: int) -> Option<int>
    decreases pats.len() - i,
{
    if i < 0 || i >= pats.len() {
        None
    } else if contains_text(s, pats[i]) {
        Some(i)
    } else {
        first_hit_from(s, pats, i + 1)
    }
}

/// Index of the first pattern of the table that occurs in `s`.
pub open spec fn first_hit(s: Seq<char>, pats: Seq<Seq<char>>) -> Option<int> {
    first_hit_from(s, pats, 0)
}

/// Some pattern of the table occurs in `s`.
pub open spec fn any_hit(s: Seq<char>, pats: Seq<Seq<char>>) -> bool {
    exists|i: int| 0 <= i < pats.len() && contains_text(s, #[trigger] pats[i])
}

/// The risk tier of a command: any high pattern dominates, then any medium one.
pub open spec fn risk_of(s: Seq<char>) -> RiskLevel {
    if any_hit(s, high_risk_patterns()) {
        RiskLevel::High
    } else if any_hit(s, medium_risk_patterns()) {
        RiskLevel::Medium
    } else {
        RiskLevel::Low
    }
}

/// The command holds a literal of the deny-list.
pub open spec fn has_forbidden(s: Seq<char>) -> bool {
    any_hit(s, forbidden_patterns())
}

/// The command passes validation.
pub open spec fn is_valid_command(s: Seq<char>) -> bool {
    !is_blank(s) && !has_forbidden(s)
}

/// What validation returns for a command.
pub open spec fn validation_spec(s: Seq<char>, r: Result<(), ValidationError>) -> bool {
    if is_blank(s) {
        r == Err::<(), ValidationError>(ValidationError::EmptyCommand)
    } else {
        match first_hit(s, forbidden_patterns()) {
            Some(i) => r is Err && r->Err_0 is ForbiddenPattern && r->Err_0->ForbiddenPattern_0@
                == forbidden_patterns()[i],
            None => r is Ok,
        }
    }
}

/// The first hit, when there is one, is a pattern that occurs; there is none exactly
/// when no pattern from `i` on occurs.
pub proof fn lemma_first_hit_from(s: Seq<char>, pats: Seq<Seq<char>>, i: int)
    requires
        0 <= i <= pats.len(),
    ensures
        first_hit_from(s, pats, i) is None <==> (forall|j: int|
            i <= j < pats.len() ==> !contains_text(s, #[trigger] pats[j])),
        first_hit_from(s, pats, i) matches Some(k) ==> i <= k < pats.len() && contains_text(
            s,
            pats[k],
        ) && forall|j: int| i <= j < k ==> !contains_text(s, #[trigger] pats[j]),
    decreases pats.len() - i,
{
    if i < pats.len() {
        lemma_first_hit_from(s, pats, i + 1);
    }
}

/// The first hit of a table is a pattern that occurs, and there is one exactly when any
/// pattern occurs.
pub proof fn lemma_first_hit(s: Seq<char>, pats: Seq<Seq<char>>)
    ensures
        first_hit(s, pats) is Some <==> any_hit(s, pats),
        first_hit(s, pats) matches Some(k) ==> 0 <= k < pats.len() && contains_text(s, pats[k]),
{
    lemma_first_hit_from(s, pats, 0);
}

/// The deny-list as string slices.
fn forbidden_list() -> (r: Vec<&'static str>)
    ensures
        texts(r@) == forbidden_patterns(),
{
    let r = vec![":(){ :|:& };:", "rm -rf /", "mkfs"];
    assert(texts(r@) =~= forbidden_patterns());
    r
}

/// The high-risk literals as string slices.
fn high_risk_list() -> (r: Vec<&'static str>)
    ensures
        texts(r@) == high_risk_patterns(),
{
    let r = vec!["rm -rf", "sudo", "chmod 777", "dd if=", "mkfs", "> /dev/"];
    assert(texts(r@) =~= high_risk_patterns());
    r
}

/// The medium-risk literals as string slices.
fn medium_risk_list() -> (r: Vec<&'static str>)
    ensures
        texts(r@) == medium_risk_patterns(),
{
    let r = vec!["rm ", "mv ", "cp ", "chmod", "chown", "kill", "pkill"];
    assert(texts(r@) =~= medium_risk_patterns());
    r
}

/// Index of the first pattern of the table that occurs in the command.
pub fn first_pattern_in(command: &str, patterns: &Vec<&str>) -> (r: Option<usize>)
    ensures
        r == (match first_hit(command@, texts(patterns@)) {
            Some(k) => Some(k as usize),
            None => None::<usize>,
        }),
{
    let ghost pats = texts(patterns@);
    let mut i: usize = 0;
    while i < patterns.len()
        invariant
            pats == texts(patterns@),
            i <= patterns@.len(),
            first_hit_from(command@, pats, 0) == first_hit_from(command@, pats, i as int),
        decreases patterns@.len() - i,
    {
        if str_contains(command, patterns[i]) {
            return Some(i);
        }
        i += 1;
    }
    None
}

/// Validates a command before anything else happens to it: it must not be blank and must
/// not hold a literal of the deny-list.
pub fn validate_command(command: &str) -> (r: Result<(), ValidationError>)
    ensures
        validation_spec(command@, r),
        r is Ok <==> is_valid_command(command@),
{
    proof {
        lemma_first_hit(command@, forbidden_patterns());
    }
    if is_blank_str(command) {
        return Err(ValidationError::EmptyCommand);
    }
    let pats = forbidden_list();
    match first_pattern_in(command, &pats) {
        Some(k) => Err(ValidationError::ForbiddenPattern(pats[k].to_owned())),
        None => Ok(()),
    }
}

/// Classifies a command by the two ordered pattern tables.
pub fn assess_risk_level(command: &str) -> (r: RiskLevel)
    ensures
        r == risk_of(command@),
{
    proof {
        lemma_first_hit(command@, high_risk_patterns());
        lemma_first_hit(command@, medium_risk_patterns());
    }
    let high = high_risk_list();
    if first_pattern_in(command, &high).is_some() {
        return RiskLevel::High;
    }
    let medium = medium_risk_list();
    if first_pattern_in(command, &medium).is_some() {
        RiskLevel::Medium
    } else {
        RiskLevel::Low
    }
}

/// A command may run without a human decision: it validates and is not high risk.
pub open spec fn is_safe(s: Seq<char>) -> bool {
    is_valid_command(s) && risk_of(s) != RiskLevel::High
}

/// Whether a command is safe to run without approval.
pub fn is_safe_command(command: &str) -> (r: bool)
    ensures
        r == is_safe(command@),
{
    let v = validate_command(command);
    if v.is_err() {
        return false;
    }
    match assess_risk_level(command) {
        RiskLevel::High => false,
        _ => true,
    }
}

} // verus!

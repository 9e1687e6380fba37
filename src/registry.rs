use vstd::prelude::*;
use crate::policy::{
    assess_risk_level, is_valid_command, risk_of, validate_command, RiskLevel, ValidationError,
};
use crate::text::same_text;

verus! {

/// What a finished command produced.
#[derive(Debug, Clone)]
pub struct CommandOutput {
    pub stdout: String,
    pub stderr: String,
    pub exit_code: i32,
    pub success: bool,
    /// Milliseconds from the start of the run to its end.
    pub duration_ms: u64,
}

/// Where a proposal stands in its life.
#[derive(Debug, Clone)]
pub enum ApprovalStatus {
    Pending,
    Approved,
    Rejected,
    Executing,
    Executed { output: CommandOutput },
    Failed { reason: String },
}

/// The variant of a status, without what it carries.
#[derive(Debug, Clone, Copy, PartialEq, Eq, Structural)]
pub enum StatusKind {
    Pending,
    Approved,
    Rejected,
    Executing,
    Executed,
    Failed,
}

/// One proposed shell command and its state.
#[derive(Debug, Clone)]
pub struct CommandBlock {
    pub id: String,
    pub command: String,
    pub working_directory: String,
    pub description: String,
    pub risk_level: RiskLevel,
    pub approval_status: ApprovalStatus,
    /// Seconds since the Unix epoch at which the proposal was made.
    pub created_at: i64,
}

/// Why a registry operation was refused; nothing was changed.
#[derive(Debug, Clone, Copy, PartialEq, Eq, Structural)]
pub enum RegistryError {
    /// No proposal has this id.
    NotFound,
    /// The proposal is not in the state that the operation starts from.
    InvalidTransition,
    /// A proposal with this id exists already.
    DuplicateId,
}

/// Why a proposal was not created; nothing was changed.
#[derive(Debug, Clone, PartialEq, Eq)]
pub enum ProposeError {
    Invalid(ValidationError),
    DuplicateId,
}

/// How long terminal proposals are kept.
#[derive(Debug, Clone, Copy, PartialEq, Eq, Structural)]
pub struct RetentionPolicy {
    /// Terminal proposals older than this many seconds are removed.
    pub max_age_secs: u64,
    /// At most this many terminal proposals are kept, the newest ones.
    pub max_terminal: usize,
}

pub open spec fn kind_of(s: ApprovalStatus) -> StatusKind {
    match s {
        ApprovalStatus::Pending => StatusKind::Pending,
        ApprovalStatus::Approved => StatusKind::Approved,
        ApprovalStatus::Rejected => StatusKind::Rejected,
        ApprovalStatus::Executing => StatusKind::Executing,
        ApprovalStatus::Executed { .. } => StatusKind::Executed,
        ApprovalStatus::Failed { .. } => StatusKind::Failed,
    }
}

/// Rejected, Executed and Failed have no way out.
pub open spec fn is_terminal(s: ApprovalStatus) -> bool {
    s is Rejected || s is Executed || s is Failed
}

/// The single path of the state machine: Pending, then Approved or Rejected; Approved,
/// then Executing; Executing, then Executed or Failed.
pub open spec fn valid_step(from: ApprovalStatus, to: ApprovalStatus) -> bool {
    match from {
        ApprovalStatus::Pending => to is Approved || to is Rejected,
        ApprovalStatus::Approved => to is Executing,
        ApprovalStatus::Executing => to is Executed || to is Failed,
        _ => false,
    }
}

/// Position of a status along the path.
pub open spec fn stage(s: ApprovalStatus) -> int {
    match s {
        ApprovalStatus::Pending => 0,
        ApprovalStatus::Approved => 1,
        ApprovalStatus::Rejected => 1,
        ApprovalStatus::Executing => 2,
        _ => 3,
    }
}

pub open spec fn unique_ids(s: Seq<CommandBlock>) -> bool {
    forall|i: int, j: int|
        0 <= i < s.len() && 0 <= j < s.len() && i != j ==> #[trigger] s[i].id@ != #[trigger] s[j].id@
}

pub open spec fn has_id(s: Seq<CommandBlock>, id: Seq<char>) -> bool {
    exists|i: int| 0 <= i < s.len() && #[trigger] s[i].id@ == id
}

/// Where the proposal with this id stands in the sequence.
pub open spec fn index_of(s: Seq<CommandBlock>, id: Seq<char>) -> Option<int> {
    if has_id(s, id) {
        Some(choose|i: int| 0 <= i < s.len() && #[trigger] s[i].id@ == id)
    } else {
        None
    }
}

/// The proposal with this id.
pub open spec fn lookup(s: Seq<CommandBlock>, id: Seq<char>) -> Option<CommandBlock> {
    match index_of(s, id) {
        Some(i) => Some(s[i]),
        None => None,
    }
}

/// The status of the proposal with this id.
pub open spec fn status_of(s: Seq<CommandBlock>, id: Seq<char>) -> Option<ApprovalStatus> {
    match index_of(s, id) {
        Some(i) => Some(s[i].approval_status),
        None => None,
    }
}

pub open spec fn with_status(b: CommandBlock, st: ApprovalStatus) -> CommandBlock {
    CommandBlock { approval_status: st, ..b }
}

/// What a transition to `to` does to the sequence of proposals, and what it returns.
pub open spec fn transition_spec(
    old: Seq<CommandBlock>,
    new: Seq<CommandBlock>,
    id: Seq<char>,
    to: ApprovalStatus,
    r: Result<(), RegistryError>,
) -> bool {
    match index_of(old, id) {
        None => r == Err::<(), RegistryError>(RegistryError::NotFound) && new == old,
        Some(i) => if valid_step(old[i].approval_status, to) {
            r == Ok::<(), RegistryError>(()) && new == old.update(i, with_status(old[i], to))
        } else {
            r == Err::<(), RegistryError>(RegistryError::InvalidTransition) && new == old
        },
    }
}

/// A new proposal as `propose` builds it.
pub open spec fn fresh_block(
    id: Seq<char>,
    created_at: i64,
    command: Seq<char>,
    working_directory: Seq<char>,
    description: Seq<char>,
    b: CommandBlock,
) -> bool {
    &&& b.id@ == id
    &&& b.command@ == command
    &&& b.working_directory@ == working_directory
    &&& b.description@ == description
    &&& b.risk_level == risk_of(command)
    &&& b.approval_status is Pending
    &&& b.created_at == created_at
}

/// The working directory a proposal runs in: the one given, or the default when none is.
pub open spec fn effective_dir(given: Seq<char>, default_dir: Seq<char>) -> Seq<char> {
    if given.len() == 0 {
        default_dir
    } else {
        given
    }
}

/// What proposing a command does: an invalid command is refused with the reason and
/// changes nothing; a valid one is always recorded, as a fresh Pending proposal under an
/// id that no proposal had, which is returned.
pub open spec fn propose_spec(
    old: Seq<CommandBlock>,
    new: Seq<CommandBlock>,
    command: Seq<char>,
    working_directory: Seq<char>,
    description: Seq<char>,
    created_at: i64,
    r: Result<String, ValidationError>,
) -> bool {
    &&& evolves(old, new)
    &&& !is_valid_command(command) ==> (r matches Err(e) && crate::policy::validation_spec(
        command,
        Err(e),
    ) && new == old)
    &&& is_valid_command(command) ==> (r matches Ok(id) && !has_id(old, id@) && new.len()
        == old.len() + 1 && new.drop_last() == old && fresh_block(
        id@,
        created_at,
        command,
        working_directory,
        description,
        new.last(),
    ))
}

/// `new` follows from `old` by steps of the state machine: every proposal of `old` is in
/// `new` with the same fields and a status equal to or one step after the old one, or it
/// was terminal and was removed; every proposal of `new` not in `old` is Pending.
pub open spec fn evolves(old: Seq<CommandBlock>, new: Seq<CommandBlock>) -> bool {
    &&& forall|id: Seq<char>| #[trigger]
        has_id(old, id) ==> match lookup(new, id) {
            Some(nb) => {
                let ob = lookup(old, id)->Some_0;
                &&& with_status(nb, ob.approval_status) == ob
                &&& (nb.approval_status == ob.approval_status || valid_step(
                    ob.approval_status,
                    nb.approval_status,
                ))
            },
            None => is_terminal(status_of(old, id)->Some_0),
        }
    &&& forall|id: Seq<char>| #[trigger]
        has_id(new, id) && !has_id(old, id) ==> status_of(new, id) == Some(ApprovalStatus::Pending)
}

/// The status is terminal and fresh enough to be kept by age.
pub open spec fn fresh_terminal(b: CommandBlock, now: i64, max_age: u64) -> bool {
    is_terminal(b.approval_status) && (now as int) - (b.created_at as int) <= max_age as int
}

/// How many proposals of `s` are terminal and young enough.
pub open spec fn count_fresh_terminal(s: Seq<CommandBlock>, now: i64, max_age: u64) -> nat
    decreases s.len(),
{
    if s.len() == 0 {
        0
    } else {
        count_fresh_terminal(s.drop_last(), now, max_age) + if fresh_terminal(
            s.last(),
            now,
            max_age,
        ) {
            1nat
        } else {
            0nat
        }
    }
}

/// Keeps every proposal that is not terminal and every young terminal one but the first
/// `skip` of those; drops the old terminal ones. Order is kept.
pub open spec fn sweep(s: Seq<CommandBlock>, skip: nat, now: i64, max_age: u64) -> Seq<
    CommandBlock,
>
    decreases s.len(),
{
    if s.len() == 0 {
        s
    } else {
        let prev = sweep(s.drop_last(), skip, now, max_age);
        let b = s.last();
        if !is_terminal(b.approval_status) {
            prev.push(b)
        } else if fresh_terminal(b, now, max_age) && count_fresh_terminal(
            s.drop_last(),
            now,
            max_age,
        ) >= skip {
            prev.push(b)
        } else {
            prev
        }
    }
}

/// What a cleanup sweep leaves: terminal proposals past the age limit go, and of the rest
/// of the terminal ones only the newest `max_terminal` stay, the oldest going first.
pub open spec fn cleanup_spec(s: Seq<CommandBlock>, policy: RetentionPolicy, now: i64) -> Seq<
    CommandBlock,
> {
    let n = count_fresh_terminal(s, now, policy.max_age_secs);
    let skip: nat = if n > policy.max_terminal { (n - policy.max_terminal) as nat } else { 0 };
    sweep(s, skip, now, policy.max_age_secs)
}

pub proof fn lemma_index_of(s: Seq<CommandBlock>, i: int)
    requires
        unique_ids(s),
        0 <= i < s.len(),
    ensures
        index_of(s, s[i].id@) == Some(i),
{
    assert(has_id(s, s[i].id@));
}

/// Every element of a sweep is an element of the swept sequence, and the sweep keeps the
/// relative order, so ids stay unique.
proof fn lemma_sweep_sub(s: Seq<CommandBlock>, skip: nat, now: i64, max_age: u64)
    ensures
        forall|k: int|
            0 <= k < sweep(s, skip, now, max_age).len() ==> exists|j: int|
                0 <= j < s.len() && s[j] == #[trigger] sweep(s, skip, now, max_age)[k],
        unique_ids(s) ==> unique_ids(sweep(s, skip, now, max_age)),
        forall|j: int|
            0 <= j < s.len() && !is_terminal(#[trigger] s[j].approval_status) ==> sweep(
                s,
                skip,
                now,
                max_age,
            ).contains(s[j]),
    decreases s.len(),
{
    if s.len() > 0 {
        let d = s.drop_last();
        lemma_sweep_sub(d, skip, now, max_age);
        let p = sweep(d, skip, now, max_age);
        let r = sweep(s, skip, now, max_age);
        assert forall|k: int| 0 <= k < r.len() implies exists|j: int|
            0 <= j < s.len() && s[j] == #[trigger] r[k] by {
            if k < p.len() {
                let j = choose|j: int| 0 <= j < d.len() && d[j] == p[k];
                assert(s[j] == r[k]);
            } else {
                assert(s[s.len() - 1] == r[k]);
            }
        }
        if unique_ids(s) {
            assert(unique_ids(d));
            assert forall|a: int, b: int|
                0 <= a < r.len() && 0 <= b < r.len() && a != b implies #[trigger] r[a].id@
                != #[trigger] r[b].id@ by {
                if a < p.len() && b < p.len() {
                } else if a < p.len() {
                    let j = choose|j: int| 0 <= j < d.len() && d[j] == p[a];
                    assert(s[j] == r[a]);
                    assert(s[s.len() - 1] == r[b]);
                } else if b < p.len() {
                    let j = choose|j: int| 0 <= j < d.len() && d[j] == p[b];
                    assert(s[j] == r[b]);
                    assert(s[s.len() - 1] == r[a]);
                }
            }
        }
        assert forall|j: int|
            0 <= j < s.len() && !is_terminal(#[trigger] s[j].approval_status) implies r.contains(
            s[j],
        ) by {
            if j < s.len() - 1 {
                assert(d[j] == s[j]);
                assert(p.contains(d[j]));
                let k = choose|k: int| 0 <= k < p.len() && p[k] == d[j];
                assert(r[k] == s[j]);
            } else {
                assert(r[r.len() - 1] == s[j]);
            }
        }
    }
}

/// Registry of proposed commands: the only owner of the proposals, and the only place
/// where their state changes.
pub struct CommandExecutor {
    blocks: Vec<CommandBlock>,
    timeout_secs: u64,
    default_dir: String,
}

impl View for CommandExecutor {
    type V = Seq<CommandBlock>;

    closed spec fn view(&self) -> Seq<CommandBlock> {
        self.blocks@
    }
}

impl CommandOutput {
    /// A copy of this output.
    pub fn snapshot(&self) -> (r: CommandOutput)
        ensures
            r == *self,
    {
        CommandOutput {
            stdout: self.stdout.clone(),
            stderr: self.stderr.clone(),
            exit_code: self.exit_code,
            success: self.success,
            duration_ms: self.duration_ms,
        }
    }
}

impl ApprovalStatus {
    /// A copy of this status.
    pub fn snapshot(&self) -> (r: ApprovalStatus)
        ensures
            r == *self,
    {
        match self {
            ApprovalStatus::Pending => ApprovalStatus::Pending,
            ApprovalStatus::Approved => ApprovalStatus::Approved,
            ApprovalStatus::Rejected => ApprovalStatus::Rejected,
            ApprovalStatus::Executing => ApprovalStatus::Executing,
            ApprovalStatus::Executed { output } => ApprovalStatus::Executed {
                output: output.snapshot(),
            },
            ApprovalStatus::Failed { reason } => ApprovalStatus::Failed { reason: reason.clone() },
        }
    }

    /// The variant of this status.
    pub fn kind(&self) -> (r: StatusKind)
        ensures
            r == kind_of(*self),
    {
        match self {
            ApprovalStatus::Pending => StatusKind::Pending,
            ApprovalStatus::Approved => StatusKind::Approved,
            ApprovalStatus::Rejected => StatusKind::Rejected,
            ApprovalStatus::Executing => StatusKind::Executing,
            ApprovalStatus::Executed { .. } => StatusKind::Executed,
            ApprovalStatus::Failed { .. } => StatusKind::Failed,
        }
    }

    /// Whether no transition leaves this status.
    pub fn is_terminal(&self) -> (r: bool)
        ensures
            r == is_terminal(*self),
    {
        match self {
            ApprovalStatus::Rejected => true,
            ApprovalStatus::Executed { .. } => true,
            ApprovalStatus::Failed { .. } => true,
            _ => false,
        }
    }

    /// Whether the state machine allows a step from this status to `to`.
    pub fn can_move_to(&self, to: &ApprovalStatus) -> (r: bool)
        ensures
            r == valid_step(*self, *to),
    {
        match self {
            ApprovalStatus::Pending => match to {
                ApprovalStatus::Approved => true,
                ApprovalStatus::Rejected => true,
                _ => false,
            },
            ApprovalStatus::Approved => match to {
                ApprovalStatus::Executing => true,
                _ => false,
            },
            ApprovalStatus::Executing => match to {
                ApprovalStatus::Executed { .. } => true,
                ApprovalStatus::Failed { .. } => true,
                _ => false,
            },
            _ => false,
        }
    }
}

impl CommandBlock {
    /// A copy of this proposal.
    pub fn snapshot(&self) -> (r: CommandBlock)
        ensures
            r == *self,
    {
        CommandBlock {
            id: self.id.clone(),
            command: self.command.clone(),
            working_directory: self.working_directory.clone(),
            description: self.description.clone(),
            risk_level: self.risk_level,
            approval_status: self.approval_status.snapshot(),
            created_at: self.created_at,
        }
    }
}

/// Ids stay where they were when the ids of a sequence are kept position by position.
pub proof fn lemma_same_ids(old: Seq<CommandBlock>, new: Seq<CommandBlock>)
    requires
        unique_ids(old),
        old.len() == new.len(),
        forall|i: int| 0 <= i < old.len() ==> #[trigger] new[i].id == old[i].id,
    ensures
        unique_ids(new),
        forall|x: Seq<char>| #[trigger] index_of(new, x) == index_of(old, x),
        forall|x: Seq<char>| #[trigger] has_id(new, x) == has_id(old, x),
{
    assert(unique_ids(new)) by {
        assert forall|i: int, j: int|
            0 <= i < new.len() && 0 <= j < new.len() && i != j implies #[trigger] new[i].id@
            != #[trigger] new[j].id@ by {
            assert(old[i].id@ != old[j].id@);
        }
    }
    assert forall|x: Seq<char>| #[trigger] has_id(new, x) == has_id(old, x) by {
        if has_id(old, x) {
            let j = choose|j: int| 0 <= j < old.len() && #[trigger] old[j].id@ == x;
            assert(new[j].id@ == x);
        }
        if has_id(new, x) {
            let j = choose|j: int| 0 <= j < new.len() && #[trigger] new[j].id@ == x;
            assert(old[j].id@ == x);
        }
    }
    assert forall|x: Seq<char>| #[trigger] index_of(new, x) == index_of(old, x) by {
        if has_id(old, x) {
            let j = choose|j: int| 0 <= j < old.len() && #[trigger] old[j].id@ == x;
            lemma_index_of(old, j);
            lemma_index_of(new, j);
        }
    }
}

/// A sequence of which every element comes from `old`, which keeps every non-terminal
/// proposal of `old`, and whose ids are unique, follows from `old` by the state machine.
pub proof fn lemma_evolves_sub(old: Seq<CommandBlock>, new: Seq<CommandBlock>)
    requires
        unique_ids(old),
        unique_ids(new),
        forall|k: int| 0 <= k < new.len() ==> old.contains(#[trigger] new[k]),
        forall|j: int|
            0 <= j < old.len() && !is_terminal(#[trigger] old[j].approval_status) ==> new.contains(
                old[j],
            ),
    ensures
        evolves(old, new),
{
    assert forall|id: Seq<char>| #[trigger] has_id(old, id) implies match lookup(new, id) {
        Some(nb) => {
            let ob = lookup(old, id)->Some_0;
            &&& with_status(nb, ob.approval_status) == ob
            &&& (nb.approval_status == ob.approval_status || valid_step(
                ob.approval_status,
                nb.approval_status,
            ))
        },
        None => is_terminal(status_of(old, id)->Some_0),
    } by {
        let j = choose|j: int| 0 <= j < old.len() && #[trigger] old[j].id@ == id;
        lemma_index_of(old, j);
        if has_id(new, id) {
            let k = choose|k: int| 0 <= k < new.len() && #[trigger] new[k].id@ == id;
            lemma_index_of(new, k);
            assert(old.contains(new[k]));
            let j2 = choose|j2: int| 0 <= j2 < old.len() && old[j2] == new[k];
            assert(old[j2].id@ == id);
            assert(j2 == j);
        } else {
            if !is_terminal(old[j].approval_status) {
                assert(new.contains(old[j]));
                let k = choose|k: int| 0 <= k < new.len() && new[k] == old[j];
                assert(new[k].id@ == id);
            }
        }
    }
    assert forall|id: Seq<char>| #[trigger] has_id(new, id) && !has_id(old, id) implies status_of(
        new,
        id,
    ) == Some(ApprovalStatus::Pending) by {
        let k = choose|k: int| 0 <= k < new.len() && #[trigger] new[k].id@ == id;
        assert(old.contains(new[k]));
        let j = choose|j: int| 0 <= j < old.len() && old[j] == new[k];
        assert(old[j].id@ == id);
    }
}

/// Filtering keeps ids unique and takes its elements from the sequence.
pub proof fn lemma_filter_sub(s: Seq<CommandBlock>, f: spec_fn(CommandBlock) -> bool)
    ensures
        forall|k: int| 0 <= k < s.filter(f).len() ==> s.contains(#[trigger] s.filter(f)[k]),
        unique_ids(s) ==> unique_ids(s.filter(f)),
        forall|j: int| 0 <= j < s.len() && f(#[trigger] s[j]) ==> s.filter(f).contains(s[j]),
    decreases s.len(),
{
    reveal(Seq::filter);
    if s.len() > 0 {
        let d = s.drop_last();
        lemma_filter_sub(d, f);
        let p = d.filter(f);
        let r = s.filter(f);
        assert forall|k: int| 0 <= k < r.len() implies s.contains(#[trigger] r[k]) by {
            if k < p.len() {
                assert(d.contains(p[k]));
                let j = choose|j: int| 0 <= j < d.len() && d[j] == p[k];
                assert(s[j] == r[k]);
            } else {
                assert(s[s.len() - 1] == r[k]);
            }
        }
        if unique_ids(s) {
            assert(unique_ids(d));
            assert forall|a: int, b: int|
                0 <= a < r.len() && 0 <= b < r.len() && a != b implies #[trigger] r[a].id@
                != #[trigger] r[b].id@ by {
                if a < p.len() && b < p.len() {
                } else if a < p.len() {
                    assert(d.contains(p[a]));
                    let j = choose|j: int| 0 <= j < d.len() && d[j] == p[a];
                    assert(s[j] == r[a]);
                    assert(s[s.len() - 1] == r[b]);
                } else if b < p.len() {
                    assert(d.contains(p[b]));
                    let j = choose|j: int| 0 <= j < d.len() && d[j] == p[b];
                    assert(s[j] == r[b]);
                    assert(s[s.len() - 1] == r[a]);
                }
            }
        }
        assert forall|j: int| 0 <= j < s.len() && f(#[trigger] s[j]) implies r.contains(s[j]) by {
            if j < s.len() - 1 {
                assert(d[j] == s[j]);
                assert(p.contains(d[j]));
                let k = choose|k: int| 0 <= k < p.len() && p[k] == d[j];
                assert(r[k] == s[j]);
            } else {
                assert(r[r.len() - 1] == s[j]);
            }
        }
    }
}

/// Relies on uuid's `Builder::from_random_bytes` and `Builder::into_uuid`, and on
/// `Uuid`'s `Display`: the version 4 id that the 16 random bytes make, as text.
#[verifier::external_body]
fn uuid_text(random: [u8; 16]) -> (r: String) {
    uuid::Builder::from_random_bytes(random).into_uuid().to_string()
}

impl CommandExecutor {
    /// Ids are unique.
    pub open spec fn wf(&self) -> bool {
        unique_ids(self@)
    }

    /// Seconds an execution may take.
    pub closed spec fn timeout(&self) -> u64 {
        self.timeout_secs
    }

    /// The working directory of proposals that name none.
    pub closed spec fn default_dir(&self) -> Seq<char> {
        self.default_dir@
    }

    /// An empty registry with a timeout of five minutes and `/` as the default working
    /// directory.
    pub fn new() -> (r: CommandExecutor)
        ensures
            r.wf(),
            r@ == Seq::<CommandBlock>::empty(),
            r.timeout() == 300,
            r.default_dir() == "/"@,
    {
        CommandExecutor { blocks: Vec::new(), timeout_secs: 300, default_dir: "/".to_owned() }
    }

    /// How many proposals the registry holds.
    pub fn len(&self) -> (r: usize)
        ensures
            r == self@.len(),
    {
        self.blocks.len()
    }

    /// Position of the proposal with this id.
    fn find(&self, id: &str) -> (r: Option<usize>)
        requires
            self.wf(),
        ensures
            r matches Some(i) ==> i < self@.len() && index_of(self@, id@) == Some(i as int),
            r is None ==> index_of(self@, id@) is None,
    {
        let mut i: usize = 0;
        while i < self.blocks.len()
            invariant
                self.wf(),
                i <= self@.len(),
                forall|k: int| 0 <= k < i ==> #[trigger] self@[k].id@ != id@,
            decreases self@.len() - i,
        {
            if same_text(self.blocks[i].id.as_str(), id) {
                proof {
                    lemma_index_of(self@, i as int);
                }
                return Some(i);
            }
            i += 1;
        }
        None
    }

    /// Adds a Pending proposal under the given id and creation time, when the command
    /// validates and the id is new.
    pub fn insert_proposal(
        &mut self,
        id: String,
        created_at: i64,
        command: &str,
        working_directory: &str,
        description: &str,
    ) -> (r: Result<(), ProposeError>)
        requires
            old(self).wf(),
        ensures
            final(self).wf(),
            final(self).timeout() == old(self).timeout(),
            final(self).default_dir() == old(self).default_dir(),
            evolves(old(self)@, final(self)@),
            !is_valid_command(command@) ==> (r matches Err(ProposeError::Invalid(e))
                && crate::policy::validation_spec(command@, Err(e))),
            is_valid_command(command@) && has_id(old(self)@, id@) ==> r == Err::<(), ProposeError>(
                ProposeError::DuplicateId,
            ),
            is_valid_command(command@) && !has_id(old(self)@, id@) ==> r is Ok,
            r is Err ==> final(self)@ == old(self)@,
            r is Ok ==> final(self)@.len() == old(self)@.len() + 1 && final(self)@.drop_last()
                == old(self)@ && fresh_block(
                id@,
                created_at,
                command@,
                working_directory@,
                description@,
                final(self)@.last(),
            ),
    {
        match validate_command(command) {
            Err(e) => {
                proof {
                    lemma_evolves_sub(old(self)@, self@);
                }
                return Err(ProposeError::Invalid(e));
            },
            Ok(()) => {},
        }
        if self.find(id.as_str()).is_some() {
            proof {
                lemma_evolves_sub(old(self)@, self@);
            }
            return Err(ProposeError::DuplicateId);
        }
        let risk_level = assess_risk_level(command);
        let block = CommandBlock {
            id,
            command: command.to_owned(),
            working_directory: working_directory.to_owned(),
            description: description.to_owned(),
            risk_level,
            approval_status: ApprovalStatus::Pending,
            created_at,
        };
        let ghost o = self@;
        self.blocks.push(block);
        proof {
            let n = self@;
            assert(n.drop_last() =~= o);
            assert(unique_ids(n)) by {
                assert forall|a: int, b: int|
                    0 <= a < n.len() && 0 <= b < n.len() && a != b implies #[trigger] n[a].id@
                    != #[trigger] n[b].id@ by {
                    if a < o.len() && b < o.len() {
                        assert(o[a] == n[a] && o[b] == n[b]);
                    } else if a < o.len() {
                        assert(o[a] == n[a]);
                    } else {
                        assert(o[b] == n[b]);
                    }
                }
            }
            assert forall|x: Seq<char>| has_id(o, x) implies #[trigger] index_of(n, x) == index_of(o, x) by {
                let j = choose|j: int| 0 <= j < o.len() && #[trigger] o[j].id@ == x;
                assert(n[j] == o[j]);
                lemma_index_of(o, j);
                lemma_index_of(n, j);
            }
            assert forall|x: Seq<char>| has_id(n, x) && !has_id(o, x) implies #[trigger] status_of(n, x) == Some(ApprovalStatus::Pending) by {
                let j = choose|j: int| 0 <= j < n.len() && #[trigger] n[j].id@ == x;
                if j < o.len() {
                    assert(o[j] == n[j]);
                }
                lemma_index_of(n, j);
            }
            assert forall|x: Seq<char>| #[trigger] has_id(o, x) implies match lookup(n, x) {
                Some(nb) => {
                    let ob = lookup(o, x)->Some_0;
                    &&& with_status(nb, ob.approval_status) == ob
                    &&& (nb.approval_status == ob.approval_status || valid_step(
                        ob.approval_status,
                        nb.approval_status,
                    ))
                },
                None => is_terminal(status_of(o, x)->Some_0),
            } by {
                let j = choose|j: int| 0 <= j < o.len() && #[trigger] o[j].id@ == x;
                assert(n[j] == o[j]);
                lemma_index_of(o, j);
                lemma_index_of(n, j);
            }
        }
        Ok(())
    }

    /// An id that no proposal has: `base` itself, or, when it is taken, `base` lengthened
    /// with `-` until it is longer than every recorded id.
    fn unused_id(&self, base: String) -> (r: String)
        requires
            self.wf(),
        ensures
            !has_id(self@, r@),
    {
        if self.find(base.as_str()).is_none() {
            return base;
        }
        let mut longest: usize = 0;
        let mut i: usize = 0;
        while i < self.blocks.len()
            invariant
                i <= self@.len(),
                forall|k: int| 0 <= k < i ==> (#[trigger] self@[k]).id@.len() <= longest,
            decreases self@.len() - i,
        {
            let n = self.blocks[i].id.as_str().unicode_len();
            if n > longest {
                longest = n;
            }
            i += 1;
        }
        let base_len = base.as_str().unicode_len();
        if base_len > longest {
            return base;
        }
        let needed: u128 = (longest - base_len) as u128 + 1;
        let mut id = base;
        let mut added: u128 = 0;
        proof {
            reveal_strlit("-");
        }
        while added < needed
            invariant
                "-"@.len() == 1,
                added <= needed,
                id@.len() == base_len + added,
            decreases needed - added,
        {
            id.append("-");
            added += 1;
        }
        id
    }

    /// Proposes a command: validates it, then records it as Pending, made at `created_at`,
    /// in the given working directory or the default one when none is given. Its id comes
    /// from the 16 random bytes, made unique when it is taken; it is returned. Nothing is
    /// recorded when validation fails.
    pub fn create_command_block(
        &mut self,
        command: &str,
        working_directory: &str,
        description: &str,
        random: [u8; 16],
        created_at: i64,
    ) -> (r: Result<String, ValidationError>)
        requires
            old(self).wf(),
        ensures
            final(self).wf(),
            final(self).timeout() == old(self).timeout(),
            final(self).default_dir() == old(self).default_dir(),
            propose_spec(
                old(self)@,
                final(self)@,
                command@,
                effective_dir(working_directory@, old(self).default_dir()),
                description@,
                created_at,
                r,
            ),
    {
        if let Err(e) = validate_command(command) {
            proof {
                lemma_evolves_sub(old(self)@, self@);
            }
            return Err(e);
        }
        let id = self.unused_id(uuid_text(random));
        let kept = id.clone();
        let dir = if working_directory.unicode_len() == 0 {
            self.default_dir.clone()
        } else {
            working_directory.to_owned()
        };
        match self.insert_proposal(id, created_at, command, dir.as_str(), description) {
            Ok(()) => Ok(kept),
            Err(_) => unreached(),
        }
    }

    /// A copy of the proposal with this id.
    pub fn get_command_block(&self, id: &str) -> (r: Result<CommandBlock, RegistryError>)
        requires
            self.wf(),
        ensures
            match lookup(self@, id@) {
                Some(b) => r == Ok::<CommandBlock, RegistryError>(b),
                None => r == Err::<CommandBlock, RegistryError>(RegistryError::NotFound),
            },
    {
        match self.find(id) {
            Some(i) => Ok(self.blocks[i].snapshot()),
            None => Err(RegistryError::NotFound),
        }
    }

    /// Moves the proposal with this id to `to`, when the state machine allows that step
    /// from its current status; otherwise changes nothing.
    fn transition(&mut self, id: &str, to: ApprovalStatus) -> (r: Result<(), RegistryError>)
        requires
            old(self).wf(),
        ensures
            final(self).wf(),
            final(self).timeout() == old(self).timeout(),
            final(self).default_dir() == old(self).default_dir(),
            transition_spec(old(self)@, final(self)@, id@, to, r),
            evolves(old(self)@, final(self)@),
    {
        let found = self.find(id);
        match found {
            None => {
                proof {
                    lemma_evolves_sub(old(self)@, self@);
                }
                Err(RegistryError::NotFound)
            },
            Some(i) => {
                if !self.blocks[i].approval_status.can_move_to(&to) {
                    proof {
                        lemma_evolves_sub(old(self)@, self@);
                    }
                    return Err(RegistryError::InvalidTransition);
                }
                let ghost o = self@;
                let ghost to_ = to;
                self.blocks[i].approval_status = to;
                proof {
                    let n = self@;
                    assert(n =~= o.update(i as int, with_status(o[i as int], to_)));
                    lemma_same_ids(o, n);
                    assert forall|x: Seq<char>| #[trigger] has_id(o, x) implies match lookup(n, x) {
                        Some(nb) => {
                            let ob = lookup(o, x)->Some_0;
                            &&& with_status(nb, ob.approval_status) == ob
                            &&& (nb.approval_status == ob.approval_status || valid_step(
                                ob.approval_status,
                                nb.approval_status,
                            ))
                        },
                        None => is_terminal(status_of(o, x)->Some_0),
                    } by {
                        let j = choose|j: int| 0 <= j < o.len() && #[trigger] o[j].id@ == x;
                        lemma_index_of(o, j);
                    }
                }
                Ok(())
            },
        }
    }

    /// Approves a Pending proposal.
    pub fn approve_command(&mut self, id: &str) -> (r: Result<(), RegistryError>)
        requires
            old(self).wf(),
        ensures
            final(self).wf(),
            final(self).timeout() == old(self).timeout(),
            final(self).default_dir() == old(self).default_dir(),
            transition_spec(old(self)@, final(self)@, id@, ApprovalStatus::Approved, r),
            evolves(old(self)@, final(self)@),
    {
        self.transition(id, ApprovalStatus::Approved)
    }

    /// Rejects a Pending proposal.
    pub fn reject_command(&mut self, id: &str) -> (r: Result<(), RegistryError>)
        requires
            old(self).wf(),
        ensures
            final(self).wf(),
            final(self).timeout() == old(self).timeout(),
            final(self).default_dir() == old(self).default_dir(),
            transition_spec(old(self)@, final(self)@, id@, ApprovalStatus::Rejected, r),
            evolves(old(self)@, final(self)@),
    {
        self.transition(id, ApprovalStatus::Rejected)
    }

    /// Marks an Approved proposal as Executing; only one call per proposal can succeed.
    pub fn begin_execution(&mut self, id: &str) -> (r: Result<(), RegistryError>)
        requires
            old(self).wf(),
        ensures
            final(self).wf(),
            final(self).timeout() == old(self).timeout(),
            final(self).default_dir() == old(self).default_dir(),
            transition_spec(old(self)@, final(self)@, id@, ApprovalStatus::Executing, r),
            evolves(old(self)@, final(self)@),
    {
        self.transition(id, ApprovalStatus::Executing)
    }

    /// Records how an Executing proposal ended: `outcome` is Executed or Failed.
    pub fn finalize(&mut self, id: &str, outcome: ApprovalStatus) -> (r: Result<
        (),
        RegistryError,
    >)
        requires
            old(self).wf(),
        ensures
            final(self).wf(),
            final(self).timeout() == old(self).timeout(),
            final(self).default_dir() == old(self).default_dir(),
            transition_spec(old(self)@, final(self)@, id@, outcome, r),
            evolves(old(self)@, final(self)@),
    {
        self.transition(id, outcome)
    }

    /// Copies of the proposals in the given status, in the order they were made.
    pub fn list_by_state(&self, kind: StatusKind) -> (r: Vec<CommandBlock>)
        ensures
            r@ == self@.filter(|b: CommandBlock| kind_of(b.approval_status) == kind),
    {
        let ghost f = |b: CommandBlock| kind_of(b.approval_status) == kind;
        let mut r: Vec<CommandBlock> = Vec::new();
        let mut i: usize = 0;
        while i < self.blocks.len()
            invariant
                i <= self@.len(),
                f == (|b: CommandBlock| kind_of(b.approval_status) == kind),
                r@ == self@.subrange(0, i as int).filter(f),
            decreases self@.len() - i,
        {
            let ghost s0 = self@.subrange(0, i as int);
            let ghost s1 = self@.subrange(0, i + 1);
            if self.blocks[i].approval_status.kind() == kind {
                r.push(self.blocks[i].snapshot());
            }
            proof {
                reveal(Seq::filter);
                assert(s1.drop_last() =~= s0);
                assert(s1.last() == self@[i as int]);
                assert(f(s1.last()) == (kind_of(self@[i as int].approval_status) == kind));
                assert(s1.filter(f) == (if f(s1.last()) {
                    s0.filter(f).push(s1.last())
                } else {
                    s0.filter(f)
                }));
            }
            i += 1;
        }
        assert(self@.subrange(0, self@.len() as int) =~= self@);
        r
    }

    /// Copies of the Pending proposals, in the order they were made.
    pub fn list_pending_commands(&self) -> (r: Vec<CommandBlock>)
        ensures
            r@ == self@.filter(|b: CommandBlock| kind_of(b.approval_status) == StatusKind::Pending),
    {
        self.list_by_state(StatusKind::Pending)
    }

    /// Keeps the proposals for which `keep` holds of their status kind, in order.
    fn retain_kinds(&mut self, drop_a: StatusKind, drop_b: StatusKind)
        requires
            old(self).wf(),
        ensures
            final(self).wf(),
            final(self).timeout() == old(self).timeout(),
            final(self).default_dir() == old(self).default_dir(),
            final(self)@ == old(self)@.filter(
                |b: CommandBlock|
                    kind_of(b.approval_status) != drop_a && kind_of(b.approval_status) != drop_b,
            ),
    {
        let ghost f = |b: CommandBlock|
            kind_of(b.approval_status) != drop_a && kind_of(b.approval_status) != drop_b;
        let ghost o = self@;
        let mut kept: Vec<CommandBlock> = Vec::new();
        let mut i: usize = 0;
        while i < self.blocks.len()
            invariant
                self@ == o,
                i <= o.len(),
                f == (|b: CommandBlock|
                    kind_of(b.approval_status) != drop_a && kind_of(b.approval_status) != drop_b),
                kept@ == o.subrange(0, i as int).filter(f),
            decreases o.len() - i,
        {
            let ghost s0 = o.subrange(0, i as int);
            let ghost s1 = o.subrange(0, i + 1);
            let k = self.blocks[i].approval_status.kind();
            if k != drop_a && k != drop_b {
                kept.push(self.blocks[i].snapshot());
            }
            proof {
                reveal(Seq::filter);
                assert(s1.drop_last() =~= s0);
                assert(s1.last() == o[i as int]);
                assert(f(s1.last()) == (kind_of(o[i as int].approval_status) != drop_a && kind_of(
                    o[i as int].approval_status,
                ) != drop_b));
                assert(s1.filter(f) == (if f(s1.last()) {
                    s0.filter(f).push(s1.last())
                } else {
                    s0.filter(f)
                }));
            }
            i += 1;
        }
        assert(o.subrange(0, o.len() as int) =~= o);
        proof {
            lemma_filter_sub(o, f);
        }
        self.blocks = kept;
    }

    /// Removes the proposals whose command has run: those Executed or Failed.
    pub fn cleanup_executed_commands(&mut self)
        requires
            old(self).wf(),
        ensures
            final(self).wf(),
            final(self).timeout() == old(self).timeout(),
            final(self).default_dir() == old(self).default_dir(),
            evolves(old(self)@, final(self)@),
            final(self)@ == old(self)@.filter(
                |b: CommandBlock|
                    kind_of(b.approval_status) != StatusKind::Executed && kind_of(b.approval_status)
                        != StatusKind::Failed,
            ),
    {
        let ghost f = |b: CommandBlock|
            kind_of(b.approval_status) != StatusKind::Executed && kind_of(b.approval_status)
                != StatusKind::Failed;
        self.retain_kinds(StatusKind::Executed, StatusKind::Failed);
        proof {
            lemma_filter_sub(old(self)@, f);
            assert forall|k: int| 0 <= k < self@.len() implies old(self)@.contains(#[trigger] self@[k]) by {}
            assert forall|j: int|
                0 <= j < old(self)@.len() && !is_terminal(#[trigger] old(self)@[j].approval_status) implies self@.contains(
                old(self)@[j],
            ) by {
                assert(f(old(self)@[j]));
            }
            lemma_evolves_sub(old(self)@, self@);
        }
    }

    /// Whether a proposal is terminal and young enough to be kept by age.
    fn is_fresh_terminal(b: &CommandBlock, now: i64, max_age: u64) -> (r: bool)
        ensures
            r == fresh_terminal(*b, now, max_age),
    {
        b.approval_status.is_terminal() && (now as i128) - (b.created_at as i128) <= max_age as i128
    }

    /// Removes terminal proposals older than the policy's age limit, then the oldest of
    /// the remaining terminal ones beyond its count limit. Other proposals stay, in order.
    pub fn cleanup(&mut self, policy: RetentionPolicy, now: i64)
        requires
            old(self).wf(),
        ensures
            final(self).wf(),
            final(self).timeout() == old(self).timeout(),
            final(self).default_dir() == old(self).default_dir(),
            evolves(old(self)@, final(self)@),
            final(self)@ == cleanup_spec(old(self)@, policy, now),
    {
        let ghost o = self@;
        let max_age = policy.max_age_secs;
        let mut n: usize = 0;
        let mut i: usize = 0;
        while i < self.blocks.len()
            invariant
                self@ == o,
                i <= o.len(),
                n <= i,
                n == count_fresh_terminal(o.subrange(0, i as int), now, max_age),
            decreases o.len() - i,
        {
            proof {
                assert(o.subrange(0, i + 1).drop_last() =~= o.subrange(0, i as int));
            }
            if Self::is_fresh_terminal(&self.blocks[i], now, max_age) {
                n += 1;
            }
            i += 1;
        }
        assert(o.subrange(0, o.len() as int) =~= o);
        let skip: usize = if n > policy.max_terminal {
            n - policy.max_terminal
        } else {
            0
        };
        let mut kept: Vec<CommandBlock> = Vec::new();
        let mut c: usize = 0;
        i = 0;
        while i < self.blocks.len()
            invariant
                self@ == o,
                i <= o.len(),
                c <= i,
                c == count_fresh_terminal(o.subrange(0, i as int), now, max_age),
                kept@ == sweep(o.subrange(0, i as int), skip as nat, now, max_age),
            decreases o.len() - i,
        {
            let ghost s0 = o.subrange(0, i as int);
            let ghost s1 = o.subrange(0, i + 1);
            proof {
                assert(s1.drop_last() =~= s0);
                assert(s1.last() == o[i as int]);
            }
            let fresh = Self::is_fresh_terminal(&self.blocks[i], now, max_age);
            if !self.blocks[i].approval_status.is_terminal() {
                kept.push(self.blocks[i].snapshot());
            } else if fresh && c >= skip {
                kept.push(self.blocks[i].snapshot());
            }
            if fresh {
                c += 1;
            }
            i += 1;
        }
        proof {
            lemma_sweep_sub(o, skip as nat, now, max_age);
            let r = kept@;
            assert forall|k: int| 0 <= k < r.len() implies o.contains(#[trigger] r[k]) by {
                let j = choose|j: int| 0 <= j < o.len() && o[j] == r[k];
            }
        }
        self.blocks = kept;
        proof {
            lemma_evolves_sub(o, self@);
        }
    }

    /// Seconds an execution may take.
    pub fn get_timeout(&self) -> (r: u64)
        ensures
            r == self.timeout(),
    {
        self.timeout_secs
    }

    /// Sets the seconds an execution may take.
    pub fn set_timeout(&mut self, secs: u64)
        ensures
            final(self).timeout() == secs,
            final(self).default_dir() == old(self).default_dir(),
            final(self)@ == old(self)@,
    {
        self.timeout_secs = secs;
    }

    /// The working directory of proposals that name none.
    pub fn default_working_directory(&self) -> (r: String)
        ensures
            r@ == self.default_dir(),
    {
        self.default_dir.clone()
    }

    /// Sets the working directory of proposals that name none.
    pub fn set_default_working_directory(&mut self, path: &str)
        ensures
            final(self).default_dir() == path@,
            final(self).timeout() == old(self).timeout(),
            final(self)@ == old(self)@,
    {
        self.default_dir = path.to_owned();
    }

    /// Checks a command as proposing it would.
    pub fn validate_command(&self, command: &str) -> (r: Result<(), ValidationError>)
        ensures
            crate::policy::validation_spec(command@, r),
            r is Ok <==> is_valid_command(command@),
    {
        validate_command(command)
    }

    /// Whether a command could run without a human decision.
    pub fn is_safe_command(&self, command: &str) -> (r: bool)
        ensures
            r == crate::policy::is_safe(command@),
    {
        crate::policy::is_safe_command(command)
    }

    /// Whether the proposal with this id could run without a human decision; false when
    /// there is no such proposal.
    pub fn is_safe(&self, id: &str) -> (r: bool)
        requires
            self.wf(),
        ensures
            r == match lookup(self@, id@) {
                Some(b) => crate::policy::is_safe(b.command@),
                None => false,
            },
    {
        match self.find(id) {
            Some(i) => crate::policy::is_safe_command(self.blocks[i].command.as_str()),
            None => false,
        }
    }
}

impl Default for CommandExecutor {
    /// An empty registry with a timeout of five minutes.
    fn default() -> (r: CommandExecutor)
        ensures
            r.wf(),
            r@ == Seq::<CommandBlock>::empty(),
            r.timeout() == 300,
            r.default_dir() == "/"@,
    {
        CommandExecutor::new()
    }
}

} // verus!

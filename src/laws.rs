use vstd::prelude::*;
use crate::execution::ProcessOutcome;
use crate::policy::{has_forbidden, is_valid_command, ValidationError};
use crate::workflow::{outcome_spec, settled};
use crate::registry::{
    evolves, fresh_block, lookup, with_status, has_id, index_of, is_terminal, kind_of, lemma_index_of, lemma_same_ids, propose_spec,
    stage, status_of, transition_spec, unique_ids, valid_step, ApprovalStatus, CommandBlock,
    RegistryError, StatusKind,
};

verus! {

/// The Pending proposals of a registry.
pub open spec fn pending(s: Seq<CommandBlock>) -> Seq<CommandBlock> {
    s.filter(|b: CommandBlock| kind_of(b.approval_status) == StatusKind::Pending)
}

/// A command that holds a literal of the deny-list is refused when proposed, and no
/// record leaks: the registry, and so its list of Pending proposals, is as it was.
pub proof fn lemma_forbidden_leaves_no_record(
    old: Seq<CommandBlock>,
    new: Seq<CommandBlock>,
    command: Seq<char>,
    working_directory: Seq<char>,
    description: Seq<char>,
    created_at: i64,
    r: Result<String, ValidationError>,
)
    requires
        has_forbidden(command),
        propose_spec(old, new, command, working_directory, description, created_at, r),
    ensures
        r is Err,
        new == old,
        pending(new).len() == pending(old).len(),
{
    assert(!is_valid_command(command));
}

/// One step of the state machine moves a status one stage on, out of a status that is
/// not terminal; Executed and Failed are reached from Executing only.
pub proof fn lemma_step_advances(from: ApprovalStatus, to: ApprovalStatus)
    requires
        valid_step(from, to),
    ensures
        stage(to) == stage(from) + 1,
        !is_terminal(from),
        (to is Executed || to is Failed) ==> from is Executing,
        to is Executing ==> from is Approved,
{
}

/// Between two snapshots of the registry joined by one operation, the status of a
/// proposal present in both is unchanged or one step on; a proposal that appears is
/// Pending; one that disappears was terminal.
pub proof fn lemma_observed_step(old: Seq<CommandBlock>, new: Seq<CommandBlock>, id: Seq<char>)
    requires
        unique_ids(old),
        unique_ids(new),
        evolves(old, new),
    ensures
        has_id(old, id) && has_id(new, id) ==> (status_of(new, id) == status_of(old, id)
            || valid_step(status_of(old, id)->Some_0, status_of(new, id)->Some_0)),
        has_id(old, id) && !has_id(new, id) ==> is_terminal(status_of(old, id)->Some_0),
        !has_id(old, id) && has_id(new, id) ==> status_of(new, id) == Some(ApprovalStatus::Pending),
{
    if has_id(old, id) {
        let j = choose|j: int| 0 <= j < old.len() && #[trigger] old[j].id@ == id;
        lemma_index_of(old, j);
        if has_id(new, id) {
            let k = choose|k: int| 0 <= k < new.len() && #[trigger] new[k].id@ == id;
            lemma_index_of(new, k);
        }
    }
}

/// `b` is `a` or a status later on the path Pending, Approved or Rejected, Executing,
/// Executed or Failed; a terminal status only reaches itself.
pub open spec fn reaches(a: ApprovalStatus, b: ApprovalStatus) -> bool {
    if is_terminal(a) {
        b == a
    } else {
        match a {
            ApprovalStatus::Pending => true,
            ApprovalStatus::Approved => b is Approved || b is Executing || b is Executed
                || b is Failed,
            _ => b is Executing || b is Executed || b is Failed,
        }
    }
}

/// Over a history of registry snapshots, each obtained from the one before by an
/// operation, a proposal present throughout keeps its id, command, working directory,
/// description, risk tier and creation time, and its status only moves on along the
/// path: the stage never decreases, at equal stage the status is the same, a later
/// status is reachable from an earlier one, and a terminal status stays as it is. With
/// each change being one step, the statuses observed form a prefix of the path.
pub proof fn lemma_history_monotone(h: Seq<Seq<CommandBlock>>, id: Seq<char>, k: int, l: int)
    requires
        forall|m: int| 0 <= m < h.len() ==> unique_ids(#[trigger] h[m]),
        forall|m: int| 0 <= m < h.len() ==> has_id(#[trigger] h[m], id),
        forall|m: int| 0 <= m && m + 1 < h.len() ==> evolves(#[trigger] h[m], h[m + 1]),
        0 <= k <= l < h.len(),
    ensures
        stage(status_of(h[k], id)->Some_0) <= stage(status_of(h[l], id)->Some_0),
        stage(status_of(h[k], id)->Some_0) == stage(status_of(h[l], id)->Some_0) ==> status_of(
            h[k],
            id,
        ) == status_of(h[l], id),
        reaches(status_of(h[k], id)->Some_0, status_of(h[l], id)->Some_0),
        with_status(lookup(h[l], id)->Some_0, status_of(h[k], id)->Some_0) == lookup(
            h[k],
            id,
        )->Some_0,
    decreases l - k,
{
    if k < l {
        lemma_history_monotone(h, id, k, l - 1);
        let a = h[l - 1];
        let b = h[l];
        assert(evolves(h[l - 1], h[l - 1 + 1]));
        lemma_observed_step(a, b, id);
        lemma_lookup_status(a, id);
        lemma_lookup_status(b, id);
        lemma_lookup_status(h[k], id);
        assert(has_id(a, id));
        if status_of(b, id) != status_of(a, id) {
            lemma_step_advances(status_of(a, id)->Some_0, status_of(b, id)->Some_0);
        }
    }
}

/// The status of a proposal is that of the block that `lookup` finds.
proof fn lemma_lookup_status(s: Seq<CommandBlock>, id: Seq<char>)
    ensures
        has_id(s, id) ==> (lookup(s, id) matches Some(b) && status_of(s, id) == Some(
            b.approval_status,
        )),
{
}

/// At most one execution: two calls of `begin_execution` on the same proposal, one after
/// the other, never both succeed; on an Approved proposal the first succeeds and the
/// second fails with `InvalidTransition`.
pub proof fn lemma_begin_execution_once(
    r0: Seq<CommandBlock>,
    r1: Seq<CommandBlock>,
    r2: Seq<CommandBlock>,
    id: Seq<char>,
    first: Result<(), RegistryError>,
    second: Result<(), RegistryError>,
)
    requires
        unique_ids(r0),
        transition_spec(r0, r1, id, ApprovalStatus::Executing, first),
        transition_spec(r1, r2, id, ApprovalStatus::Executing, second),
    ensures
        !(first is Ok && second is Ok),
        status_of(r0, id) == Some(ApprovalStatus::Approved) ==> first is Ok && second == Err::<
            (),
            RegistryError,
        >(RegistryError::InvalidTransition),
{
    match index_of(r0, id) {
        Some(i) => {
            if first is Ok {
                lemma_same_ids(r0, r1);
                assert(r1[i].approval_status == ApprovalStatus::Executing);
            }
        },
        None => {},
    }
}

/// A valid command is always recorded, whatever the registry holds: the call returns an
/// id that no proposal had, the registry gains exactly that one Pending proposal, and the
/// list of Pending proposals grows by it.
pub proof fn lemma_valid_proposal_recorded(
    old: Seq<CommandBlock>,
    new: Seq<CommandBlock>,
    command: Seq<char>,
    working_directory: Seq<char>,
    description: Seq<char>,
    created_at: i64,
    r: Result<String, ValidationError>,
)
    requires
        is_valid_command(command),
        propose_spec(old, new, command, working_directory, description, created_at, r),
    ensures
        r is Ok,
        !has_id(old, r->Ok_0@),
        new == old.push(new.last()),
        fresh_block(r->Ok_0@, created_at, command, working_directory, description, new.last()),
        pending(new) == pending(old).push(new.last()),
{
    assert(new =~= old.push(new.last()));
    reveal(Seq::filter);
    assert(new.drop_last() == old);
}

/// Two runs on different proposals, recorded one after the other in either order, are
/// each attributed to their own proposal: each settles as its own outcome says, both
/// keep their other fields, and every other proposal is left as it was.
pub proof fn lemma_outcomes_attributed(
    r0: Seq<CommandBlock>,
    r1: Seq<CommandBlock>,
    r2: Seq<CommandBlock>,
    a: Seq<char>,
    b: Seq<char>,
    outcome_a: ProcessOutcome,
    outcome_b: ProcessOutcome,
    timeout_secs: u64,
    result_a: Result<(), RegistryError>,
    result_b: Result<(), RegistryError>,
)
    requires
        unique_ids(r0),
        a != b,
        status_of(r0, a) == Some(ApprovalStatus::Executing),
        status_of(r0, b) == Some(ApprovalStatus::Executing),
        outcome_spec(r0, r1, a, outcome_a, timeout_secs, result_a),
        outcome_spec(r1, r2, b, outcome_b, timeout_secs, result_b),
    ensures
        result_a is Ok,
        result_b is Ok,
        settled(lookup(r2, a)->Some_0, outcome_a, timeout_secs),
        settled(lookup(r2, b)->Some_0, outcome_b, timeout_secs),
        with_status(lookup(r2, a)->Some_0, ApprovalStatus::Executing) == lookup(r0, a)->Some_0,
        with_status(lookup(r2, b)->Some_0, ApprovalStatus::Executing) == lookup(r0, b)->Some_0,
        forall|x: Seq<char>| x != a && x != b ==> #[trigger] lookup(r2, x) == lookup(r0, x),
{
    let ia = index_of(r0, a)->Some_0;
    let ib = index_of(r0, b)->Some_0;
    assert(r0[ia].id@ == a && r0[ib].id@ == b && ia != ib) by {
        let j = choose|j: int| 0 <= j < r0.len() && #[trigger] r0[j].id@ == a;
        lemma_index_of(r0, j);
        let k = choose|k: int| 0 <= k < r0.len() && #[trigger] r0[k].id@ == b;
        lemma_index_of(r0, k);
    }
    assert forall|k: int| 0 <= k < r0.len() implies #[trigger] r1[k].id == r0[k].id by {
        if k == ia {
            assert(with_status(r1[ia], ApprovalStatus::Executing) == r0[ia]);
        }
    }
    lemma_same_ids(r0, r1);
    assert(r1[ib] == r0[ib]);
    assert forall|k: int| 0 <= k < r1.len() implies #[trigger] r2[k].id == r1[k].id by {
        if k == ib {
            assert(with_status(r2[ib], ApprovalStatus::Executing) == r1[ib]);
        }
    }
    lemma_same_ids(r1, r2);
    assert(r2[ia] == r1[ia]);
    assert forall|x: Seq<char>| x != a && x != b implies #[trigger] lookup(r2, x) == lookup(r0, x) by {
        if has_id(r0, x) {
            let j = choose|j: int| 0 <= j < r0.len() && #[trigger] r0[j].id@ == x;
            lemma_index_of(r0, j);
            assert(j != ia && j != ib);
            assert(r2[j] == r1[j] && r1[j] == r0[j]);
        }
    }
}

} // verus!

//! The registry record and its three operations.
//!
//! The record is created once with an administrator and a root. The
//! administrator may replace the root; any identity with a proof for its own
//! leaf against the current root may perform the gated action. An operation
//! either applies in full or is rejected and leaves the record as it was.

use crate::digest::digest_eq;
use crate::hasher::{identity_leaf, leaf_of};
use crate::merkle::{digests, verifies, verify_proof};
use vstd::prelude::*;

verus! {

/// Why an operation was rejected.
#[derive(Clone, Copy, Debug, PartialEq, Eq, Structural)]
pub enum WhitelistError {
    /// The caller of a root rotation is not the administrator.
    Unauthorized,
    /// The proof does not lead from the caller's leaf to the current root.
    InvalidProof,
}

/// The registry record.
#[derive(Clone, Copy, Debug, PartialEq, Eq)]
pub struct BaseState {
    /// The identity that may replace the root; set once.
    pub admin: [u8; 32],
    /// The root that proofs are verified against.
    pub root: [u8; 32],
    /// How many gated actions have been accepted.
    pub counter: u64,
    /// The leaf of the identity whose gated action was accepted last; the
    /// first root until there is one.
    pub leaf: [u8; 32],
}

/// What creating the record takes: the record to fill and the identity that
/// creates it.
#[derive(Clone, Copy, Debug, PartialEq, Eq)]
pub struct Initialize {
    pub base_state: BaseState,
    pub admin: [u8; 32],
}

/// What a root rotation takes: the record and the identity that asks for it.
#[derive(Clone, Copy, Debug, PartialEq, Eq)]
pub struct UpdateMerkleRoot {
    pub base_state: BaseState,
    pub admin: [u8; 32],
}

/// What the gated action takes: the record and the identity that acts.
#[derive(Clone, Copy, Debug, PartialEq, Eq)]
pub struct TargetFunction {
    pub base_state: BaseState,
    pub user: [u8; 32],
}

/// The record as contracts see it: byte strings and an unbounded counter.
pub struct RegistryView {
    pub admin: Seq<u8>,
    pub root: Seq<u8>,
    pub counter: nat,
    pub leaf: Seq<u8>,
}

impl View for BaseState {
    type V = RegistryView;

    open spec fn view(&self) -> RegistryView {
        RegistryView {
            admin: self.admin@,
            root: self.root@,
            counter: self.counter as nat,
            leaf: self.leaf@,
        }
    }
}

/// The record that `admin` creates with `root`: nothing counted yet, and the
/// root standing in for the last leaf.
pub open spec fn initial_state(admin: Seq<u8>, root: Seq<u8>) -> RegistryView {
    RegistryView { admin, root, counter: 0, leaf: root }
}

/// A root rotation asked for by `caller`: the record with the new root where
/// `caller` is the administrator, else a rejection.
pub open spec fn rotate_root(state: RegistryView, caller: Seq<u8>, new_root: Seq<u8>) -> Result<
    RegistryView,
    WhitelistError,
> {
    if caller == state.admin {
        Ok(RegistryView { root: new_root, ..state })
    } else {
        Err(WhitelistError::Unauthorized)
    }
}

/// The outcome of a gated action once its proof has been judged: where it
/// was accepted, the record with `leaf` noted and one more counted, else a
/// rejection.
pub open spec fn recorded(state: RegistryView, leaf: Seq<u8>, accepted: bool) -> Result<
    RegistryView,
    WhitelistError,
> {
    if accepted {
        Ok(RegistryView { leaf, counter: state.counter + 1, ..state })
    } else {
        Err(WhitelistError::InvalidProof)
    }
}

/// A gated action by `caller` with `proof`: the proof is checked from the
/// caller's own leaf to the current root.
pub open spec fn gated_action(state: RegistryView, caller: Seq<u8>, proof: Seq<Seq<u8>>) -> Result<
    RegistryView,
    WhitelistError,
> {
    let leaf = identity_leaf(caller);
    recorded(state, leaf, verifies(proof, state.root, leaf))
}

/// Creates the record: the creating identity becomes the administrator.
pub fn initialize(ctx: &mut Initialize, merkle_root: [u8; 32]) -> (result: Result<
    (),
    WhitelistError,
>)
    ensures
        result is Ok,
        final(ctx).base_state@ == initial_state(old(ctx).admin@, merkle_root@),
        final(ctx).admin == old(ctx).admin,
{
    ctx.base_state.admin = ctx.admin;
    ctx.base_state.root = merkle_root;
    ctx.base_state.counter = 0;
    ctx.base_state.leaf = merkle_root;
    Ok(())
}

/// Replaces the root, for the administrator only. The old root is gone at
/// once; the new one is taken as it is.
pub fn update_merkle_root(ctx: &mut UpdateMerkleRoot, merkle_root: [u8; 32]) -> (result: Result<
    (),
    WhitelistError,
>)
    ensures
        match rotate_root(old(ctx).base_state@, old(ctx).admin@, merkle_root@) {
            Ok(next) => result is Ok && final(ctx).base_state@ == next,
            Err(e) => result == Err::<(), WhitelistError>(e) && *final(ctx) == *old(ctx),
        },
        final(ctx).admin == old(ctx).admin,
{
    if !digest_eq(&ctx.base_state.admin, &ctx.admin) {
        return Err(WhitelistError::Unauthorized);
    }
    ctx.base_state.root = merkle_root;
    Ok(())
}

/// Settles a gated action whose proof has been judged: notes the leaf and
/// counts the action where it was accepted, and rejects it otherwise.
pub fn record_action(base_state: &mut BaseState, leaf: [u8; 32], accepted: bool) -> (result: Result<
    (),
    WhitelistError,
>)
    requires
        accepted ==> old(base_state).counter < u64::MAX,
    ensures
        match recorded(old(base_state)@, leaf@, accepted) {
            Ok(next) => result is Ok && final(base_state)@ == next,
            Err(e) => result == Err::<(), WhitelistError>(e) && *final(base_state) == *old(
                base_state,
            ),
        },
{
    if !accepted {
        return Err(WhitelistError::InvalidProof);
    }
    base_state.leaf = leaf;
    base_state.counter = base_state.counter + 1;
    Ok(())
}

/// The gated action: accepted where `proof` leads from the acting
/// identity's leaf to the current root.
pub fn target_function(ctx: &mut TargetFunction, proof: Vec<[u8; 32]>) -> (result: Result<
    (),
    WhitelistError,
>)
    requires
        old(ctx).base_state.counter < u64::MAX,
    ensures
        match gated_action(old(ctx).base_state@, old(ctx).user@, digests(proof@)) {
            Ok(next) => result is Ok && final(ctx).base_state@ == next,
            Err(e) => result == Err::<(), WhitelistError>(e) && *final(ctx) == *old(ctx),
        },
        final(ctx).user == old(ctx).user,
{
    let leaf = leaf_of(&ctx.user);
    let accepted = verify_proof(proof, ctx.base_state.root, leaf);
    record_action(&mut ctx.base_state, leaf, accepted)
}

/// A request made to an existing record.
pub enum Operation {
    /// `caller` asks for the root to be replaced by `new_root`.
    UpdateRoot { caller: Seq<u8>, new_root: Seq<u8> },
    /// `caller` asks for the gated action, with `proof`.
    GatedAction { caller: Seq<u8>, proof: Seq<Seq<u8>> },
}

/// What an operation comes to on a record: the next record or a rejection.
pub open spec fn outcome(state: RegistryView, op: Operation) -> Result<
    RegistryView,
    WhitelistError,
> {
    match op {
        Operation::UpdateRoot { caller, new_root } => rotate_root(state, caller, new_root),
        Operation::GatedAction { caller, proof } => gated_action(state, caller, proof),
    }
}

/// The record after an operation: a rejected one leaves it as it was.
pub open spec fn step(state: RegistryView, op: Operation) -> RegistryView {
    match outcome(state, op) {
        Ok(next) => next,
        Err(_) => state,
    }
}

/// The record after a list of operations, applied in order.
pub open spec fn run(state: RegistryView, ops: Seq<Operation>) -> RegistryView
    decreases ops.len(),
{
    if ops.len() == 0 {
        state
    } else {
        step(run(state, ops.drop_last()), ops.last())
    }
}

/// `op` is a gated action that the record accepts.
pub open spec fn is_accepted_action(state: RegistryView, op: Operation) -> bool {
    op is GatedAction && outcome(state, op) is Ok
}

/// How many operations of the list are gated actions accepted by the record
/// that they meet.
pub open spec fn accepted_actions(state: RegistryView, ops: Seq<Operation>) -> nat
    decreases ops.len(),
{
    if ops.len() == 0 {
        0
    } else {
        let before = accepted_actions(state, ops.drop_last());
        if is_accepted_action(run(state, ops.drop_last()), ops.last()) {
            before + 1
        } else {
            before
        }
    }
}

/// One operation moves the counter by exactly one where it is an accepted
/// gated action, and not at all otherwise; a rejected operation changes
/// nothing.
pub proof fn lemma_step_counter(state: RegistryView, op: Operation)
    ensures
        is_accepted_action(state, op) ==> step(state, op).counter == state.counter + 1,
        !is_accepted_action(state, op) ==> step(state, op).counter == state.counter,
        outcome(state, op) is Err ==> step(state, op) == state,
{
}

/// Over any list of operations the counter grows by the number of accepted
/// gated actions, so it never decreases.
pub proof fn lemma_counter_monotonic(state: RegistryView, ops: Seq<Operation>)
    ensures
        run(state, ops).counter == state.counter + accepted_actions(state, ops),
        run(state, ops).counter >= state.counter,
    decreases ops.len(),
{
    if ops.len() > 0 {
        lemma_counter_monotonic(state, ops.drop_last());
        lemma_step_counter(run(state, ops.drop_last()), ops.last());
    }
}

/// No list of operations changes the administrator.
pub proof fn lemma_admin_fixed(state: RegistryView, ops: Seq<Operation>)
    ensures
        run(state, ops).admin == state.admin,
    decreases ops.len(),
{
    if ops.len() > 0 {
        lemma_admin_fixed(state, ops.drop_last());
    }
}

/// What an operation may touch: none changes the administrator; a rotation
/// changes at most the root, and the root only where the administrator asks;
/// a gated action changes at most the last leaf and the counter.
pub proof fn lemma_step_frame(state: RegistryView, op: Operation)
    ensures
        step(state, op).admin == state.admin,
        op is UpdateRoot ==> step(state, op).counter == state.counter && step(state, op).leaf
            == state.leaf,
        op is GatedAction ==> step(state, op).root == state.root,
        step(state, op).root != state.root ==> op is UpdateRoot && op->UpdateRoot_caller
            == state.admin,
{
}

} // verus!

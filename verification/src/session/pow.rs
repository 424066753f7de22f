//! Puzzles that peers ask this node to solve, within a budget of difficulty.

use crate::session::frame::{build_frame, plain_frame};
use crate::session::messages::FrameFamily;
use crate::session::tx_registry::{RegistryState, SessionTxRegistry, INTERACTIVE};
use vstd::prelude::*;

verus! {

/// The difficulty of the puzzles being solved, and how much is allowed at once.
#[derive(Debug)]
pub struct PowBudget {
    pub active: u64,
    pub limit: u64,
}

/// The difficulty that was set aside for one puzzle.
#[derive(Debug)]
pub struct BudgetGuard {
    pub difficulty: u64,
}

impl PowBudget {
    /// No puzzle is being solved.
    pub fn new(limit: u64) -> (b: PowBudget)
        ensures
            b.active == 0,
            b.limit == limit,
    {
        PowBudget { active: 0, limit }
    }

    /// Whether the difficulty of all puzzles is within the limit.
    pub open spec fn sound(self) -> bool {
        self.active <= self.limit
    }

    /// Sets difficulty aside for a puzzle, or refuses it when the limit would be
    /// exceeded.
    pub fn reserve(&mut self, difficulty: u8) -> (r: Option<BudgetGuard>)
        requires
            old(self).sound(),
        ensures
            r is Some == (old(self).active + difficulty <= old(self).limit),
            r matches Some(g) ==> g.difficulty == difficulty,
            final(self).limit == old(self).limit,
            final(self).active == if r is Some {
                old(self).active + difficulty
            } else {
                old(self).active as int
            },
            final(self).sound(),
    {
        let d: u64 = difficulty as u64;
        if d > self.limit - self.active {
            return None;
        }
        self.active = self.active + d;
        Some(BudgetGuard { difficulty: d })
    }

    /// Gives back what was set aside for a puzzle.
    pub fn release(&mut self, guard: BudgetGuard)
        requires
            old(self).sound(),
            guard.difficulty <= old(self).active,
        ensures
            final(self).active == old(self).active - guard.difficulty,
            final(self).limit == old(self).limit,
            final(self).sound(),
    {
        self.active = self.active - guard.difficulty;
    }
}

/// Solving a puzzle or giving it up leaves the budget as it was before.
pub proof fn budget_comes_back(
    before: PowBudget,
    during: PowBudget,
    after: PowBudget,
    guard: BudgetGuard,
)
    requires
        during.active == before.active + guard.difficulty,
        after.active == during.active - guard.difficulty,
    ensures
        after.active == before.active,
{
}

/// Whether a puzzle is taken on: a solver is free and the difficulty is within
/// the budget.
pub fn accept_challenge(budget: &mut PowBudget, solver_free: bool, difficulty: u8) -> (r: Option<
    BudgetGuard,
>)
    requires
        old(budget).sound(),
    ensures
        r is Some == (solver_free && old(budget).active + difficulty <= old(budget).limit),
        r matches Some(g) ==> g.difficulty == difficulty && final(budget).active == old(
            budget,
        ).active + difficulty,
        r is None ==> *final(budget) == *old(budget),
        final(budget).limit == old(budget).limit,
        final(budget).sound(),
{
    if !solver_free {
        return None;
    }
    budget.reserve(difficulty)
}

/// Who gets the solution when the acceptor cannot be reached directly: the next
/// hop on the way to it, else the peer that sent the puzzle.
pub fn solution_fallback(next_hop: Option<[u8; 32]>, sender: [u8; 32]) -> (dest: [u8; 32])
    ensures
        dest == match next_hop {
            Some(h) => h,
            None => sender,
        },
{
    match next_hop {
        Some(h) => h,
        None => sender,
    }
}

/// The queues after a solution was offered to the acceptor and, where its queue did
/// not take it, to the one that stands in for it.
pub open spec fn delivered(
    before: RegistryState,
    acceptor: Seq<u8>,
    stand_in: Seq<u8>,
    frame: Seq<u8>,
    now: u64,
) -> RegistryState {
    let first = before.sent_to(acceptor, INTERACTIVE, frame, now);
    if before.accepts(acceptor) {
        first
    } else {
        first.sent_to(stand_in, INTERACTIVE, frame, now)
    }
}

/// Queues a solution, among the frames that answer a user: for the acceptor and,
/// only where that fails, for the next hop on the way to it or, without one, for
/// the peer that sent the puzzle. Says whether a queue took it.
pub fn deliver_solution(
    registry: &mut Option<SessionTxRegistry>,
    acceptor: &[u8; 32],
    next_hop: Option<[u8; 32]>,
    sender: [u8; 32],
    frame: Vec<u8>,
    now: u64,
) -> (sent: bool)
    ensures
        match *old(registry) {
            None => !sent && *final(registry) is None,
            Some(reg) => {
                let stand_in = match next_hop {
                    Some(h) => h@,
                    None => sender@,
                };
                &&& (*final(registry)) is Some
                &&& (*final(registry))->0@ == delivered(reg@, acceptor@, stand_in, frame@, now)
                &&& sent == (reg@.accepts(acceptor@) || reg@.sent_to(
                    acceptor@,
                    INTERACTIVE,
                    frame@,
                    now,
                ).accepts(stand_in))
            },
        },
{
    match registry {
        None => false,
        Some(reg) => {
            if reg.send_to_arc(acceptor, INTERACTIVE, frame.as_slice(), now) {
                return true;
            }
            let dest: [u8; 32] = solution_fallback(next_hop, sender);
            reg.send_to(&dest, INTERACTIVE, frame, now)
        },
    }
}

/// A solution changes one queue at most, that of the acceptor where it takes frames,
/// else that of the one that stands in for it: every other stays as it was.
pub proof fn a_solution_changes_one_queue(
    before: RegistryState,
    acceptor: Seq<u8>,
    stand_in: Seq<u8>,
    frame: Seq<u8>,
    now: u64,
    peer: Seq<u8>,
)
    requires
        peer != if before.accepts(acceptor) {
            acceptor
        } else {
            stand_in
        },
    ensures
        delivered(before, acceptor, stand_in, frame, now).sessions.contains_key(peer)
            == before.sessions.contains_key(peer),
        before.sessions.contains_key(peer) ==> delivered(
            before,
            acceptor,
            stand_in,
            frame,
            now,
        ).sessions[peer] == before.sessions[peer],
{
}

/// Builds a frame of the routing family.
pub fn encode_routing_frame(msg: u16, body: &[u8]) -> (v: Vec<u8>)
    requires
        body@.len() <= u32::MAX,
    ensures
        v@ == plain_frame(FrameFamily::Routing.code_spec(), msg, body@),
{
    build_frame(FrameFamily::Routing.code(), msg, body)
}

/// Puzzles are taken on up to the limit, and what a puzzle took is there again once it is
/// released.
pub proof fn the_budget_is_kept(
    b: &mut PowBudget,
    difficulty: u8,
    r: Option<BudgetGuard>,
    c: &mut PowBudget,
)
    requires
        call_ensures(PowBudget::reserve, (b, difficulty), r),
        r is Some ==> *old(c) == *final(b) && call_ensures(PowBudget::release, (c, r->0), ()),
    ensures
        r is Some <==> old(b).active + difficulty <= old(b).limit,
        r is Some ==> final(b).active == old(b).active + difficulty,
        r is None ==> final(b).active == old(b).active,
        r is Some ==> final(c).active == old(b).active && final(c).limit == old(b).limit,
        final(b).limit == old(b).limit,
{
}

/// A puzzle is taken on only by a free solver and within the budget.
pub proof fn a_puzzle_needs_a_free_solver(
    b: &mut PowBudget,
    solver_free: bool,
    difficulty: u8,
    r: Option<BudgetGuard>,
)
    requires
        call_ensures(accept_challenge, (b, solver_free, difficulty), r),
    ensures
        r is Some <==> solver_free && old(b).active + difficulty <= old(b).limit,
        r is Some ==> r->0.difficulty == difficulty && final(b).active == old(b).active
            + difficulty,
        r is None ==> final(b).active == old(b).active,
        final(b).limit == old(b).limit,
{
}

/// A solution goes to the acceptor where its queue takes it, else to the next hop on the
/// way to it or, without one, to the peer that sent the puzzle, and to one of them only.
pub proof fn a_solution_is_delivered(
    registry: &mut Option<SessionTxRegistry>,
    acceptor: &[u8; 32],
    next_hop: Option<[u8; 32]>,
    sender: [u8; 32],
    frame: Vec<u8>,
    now: u64,
    sent: bool,
    other: Seq<u8>,
)
    requires
        *old(registry) is Some,
        call_ensures(
            deliver_solution,
            (registry, acceptor, next_hop, sender, frame, now),
            sent,
        ),
        next_hop is Some ==> next_hop->0@ != acceptor@,
        next_hop is None ==> sender@ != acceptor@,
        other != acceptor@,
        next_hop is Some ==> other != next_hop->0@,
        next_hop is None ==> other != sender@,
    ensures
        ({
            let a = (*old(registry))->0@;
            let b = (*final(registry))->0@;
            let by = if next_hop is Some {
                next_hop->0@
            } else {
                sender@
            };
            let first = a.sessions.contains_key(acceptor@) && !a.sessions[acceptor@].closed
                && a.sessions[acceptor@].queue.len() < a.capacity;
            let then = a.sessions.contains_key(by) && !a.sessions[by].closed
                && a.sessions[by].queue.len() < a.capacity;
            &&& sent == (first || then)
            &&& first ==> b.sessions[acceptor@].queue == a.sessions[acceptor@].queue.push(
                (1u8, frame@),
            )
            &&& first && a.sessions.contains_key(by) ==> b.sessions[by] == a.sessions[by]
            &&& !first && then ==> b.sessions[by].queue == a.sessions[by].queue.push((1u8, frame@))
            &&& !first && a.sessions.contains_key(acceptor@) ==> b.sessions[acceptor@]
                == a.sessions[acceptor@]
            &&& b.sessions.contains_key(other) == a.sessions.contains_key(other)
            &&& a.sessions.contains_key(other) ==> b.sessions[other] == a.sessions[other]
        }),
{
}

/// Without queues no solution is delivered.
pub proof fn without_queues_nothing_is_delivered(
    registry: &mut Option<SessionTxRegistry>,
    acceptor: &[u8; 32],
    next_hop: Option<[u8; 32]>,
    sender: [u8; 32],
    frame: Vec<u8>,
    now: u64,
    sent: bool,
    dest: [u8; 32],
)
    requires
        *old(registry) is None,
        call_ensures(
            deliver_solution,
            (registry, acceptor, next_hop, sender, frame, now),
            sent,
        ),
        call_ensures(solution_fallback, (next_hop, sender), dest),
    ensures
        !sent,
        next_hop is Some ==> dest == next_hop->0,
        next_hop is None ==> dest == sender,
{
}

} // verus!

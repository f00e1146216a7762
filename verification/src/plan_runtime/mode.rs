//! The modes that a session goes through when it works with a plan.
//!
//! ```text
//!   Chat ── /plan ──► Planning ── build ──► Executing ── all todos done ──► Completed ──► Chat
//!     ▲                  │                     │
//!     └──── /plan exit ──┴── Pending ◄─ cancel ┘
//! ```

use vstd::prelude::*;

use crate::plan_runtime::file_store::{PlanFile, PlanFileMode, TodoItem};
#[allow(unused_imports)]
use crate::plan_runtime::file_store::PlanFileFrontmatter;
use crate::text::{cat, cat3, same};
#[allow(unused_imports)]
use crate::text::opt_text;

verus! {

/// The mode of a session.
#[derive(Clone, Debug, PartialEq, Eq)]
pub enum PlanMode {
    Chat,
    Planning,
    Executing { plan_id: String },
    Pending { plan_id: String },
    Completed { plan_id: String },
}

/// The word for a mode.
pub open spec fn mode_word(mode: PlanMode) -> Seq<char> {
    match mode {
        PlanMode::Chat => "chat"@,
        PlanMode::Planning => "planning"@,
        PlanMode::Executing { .. } => "executing"@,
        PlanMode::Pending { .. } => "pending"@,
        PlanMode::Completed { .. } => "completed"@,
    }
}

/// The plan that a mode is about.
pub open spec fn plan_of(mode: PlanMode) -> Option<Seq<char>> {
    match mode {
        PlanMode::Chat => None,
        PlanMode::Planning => None,
        PlanMode::Executing { plan_id } => Some(plan_id@),
        PlanMode::Pending { plan_id } => Some(plan_id@),
        PlanMode::Completed { plan_id } => Some(plan_id@),
    }
}

impl PlanMode {
    /// The word for the mode.
    pub fn as_str(&self) -> (r: &'static str)
        ensures
            r@ == mode_word(*self),
    {
        match self {
            PlanMode::Chat => "chat",
            PlanMode::Planning => "planning",
            PlanMode::Executing { .. } => "executing",
            PlanMode::Pending { .. } => "pending",
            PlanMode::Completed { .. } => "completed",
        }
    }

    /// The plan that the mode is about: there is one once a plan is built.
    pub fn active_plan_id(&self) -> (r: Option<&str>)
        ensures
            crate::text::opt_str(r) == plan_of(*self),
    {
        match self {
            PlanMode::Chat => None,
            PlanMode::Planning => None,
            PlanMode::Executing { plan_id } => Some(plan_id.as_str()),
            PlanMode::Pending { plan_id } => Some(plan_id.as_str()),
            PlanMode::Completed { plan_id } => Some(plan_id.as_str()),
        }
    }

    /// The same mode.
    pub fn copied(&self) -> (r: PlanMode)
        ensures
            r == *self,
    {
        match self {
            PlanMode::Chat => PlanMode::Chat,
            PlanMode::Planning => PlanMode::Planning,
            PlanMode::Executing { plan_id } => PlanMode::Executing { plan_id: plan_id.clone() },
            PlanMode::Pending { plan_id } => PlanMode::Pending { plan_id: plan_id.clone() },
            PlanMode::Completed { plan_id } => PlanMode::Completed { plan_id: plan_id.clone() },
        }
    }
}

/// Why a change of mode is refused.
#[derive(Clone, Debug, PartialEq, Eq)]
pub enum PlanRuntimeError {
    EmptyObjective,
    AlreadyInMode(String),
    UnsafePlanId(String),
    Io(String),
}

/// The message of an error.
pub open spec fn error_message(e: PlanRuntimeError) -> Seq<char> {
    match e {
        PlanRuntimeError::EmptyObjective => "/plan 需要非空 objective"@,
        PlanRuntimeError::AlreadyInMode(m) => "当前已经在 "@ + m@ + " 模式，无法重复进入"@,
        PlanRuntimeError::UnsafePlanId(m) => "plan_id 非法或不安全："@ + m@,
        PlanRuntimeError::Io(m) => "plan io: "@ + m@,
    }
}

impl PlanRuntimeError {
    /// The message of the error.
    pub fn message(&self) -> (r: String)
        ensures
            r@ == error_message(*self),
    {
        match self {
            PlanRuntimeError::EmptyObjective => "/plan 需要非空 objective".to_owned(),
            PlanRuntimeError::AlreadyInMode(m) => cat3(
                "当前已经在 ",
                m.as_str(),
                " 模式，无法重复进入",
            ),
            PlanRuntimeError::UnsafePlanId(m) => cat("plan_id 非法或不安全：", m.as_str()),
            PlanRuntimeError::Io(m) => cat("plan io: ", m.as_str()),
        }
    }
}

/// What a session knows of its plans.
#[derive(Clone, Debug, PartialEq, Eq)]
pub struct PlanRuntime {
    pub mode: PlanMode,
    /// The session that this belongs to.
    pub session_key: String,
    /// The plan that was drafted last.
    pub active_planning_plan_id: Option<String>,
    /// The todos of the session that belong to no plan.
    pub session_todos: Vec<TodoItem>,
}

/// How a mode is called where it stands in the way.
pub open spec fn mode_in_the_way(mode: PlanMode) -> Seq<char> {
    match mode {
        PlanMode::Executing { plan_id } => "executing(plan_id="@ + plan_id@ + ")"@,
        PlanMode::Pending { plan_id } => "pending(plan_id="@ + plan_id@ + ")"@,
        _ => mode_word(mode),
    }
}

/// Whether planning can start from a mode.
pub open spec fn may_enter_planning(mode: PlanMode) -> bool {
    mode is Chat || mode is Completed
}

/// Whether a session is working on a plan.
pub open spec fn works_on(session: Seq<char>, plan: PlanFile) -> bool {
    plan.frontmatter.mode is Executing && (plan.frontmatter.session_key matches Some(k) && k@
        == session)
}

/// The first plan from `from` on that a session is working on.
pub open spec fn first_own(plans: Seq<PlanFile>, session: Seq<char>, from: int) -> Option<Seq<char>>
    decreases plans.len() - from,
{
    if from >= plans.len() {
        None
    } else if works_on(session, plans[from]) {
        Some(plans[from].frontmatter.plan_id@)
    } else {
        first_own(plans, session, from + 1)
    }
}

/// A plan that waits.
pub open spec fn waiting(plan: PlanFile) -> PlanFile {
    PlanFile {
        frontmatter: PlanFileFrontmatter { mode: PlanFileMode::Pending, ..plan.frontmatter },
        ..plan
    }
}

/// The plans that are being worked on, but not by this session, as plans that wait.
pub open spec fn left_waiting(plans: Seq<PlanFile>, session: Seq<char>) -> Seq<PlanFile>
    decreases plans.len(),
{
    if plans.len() == 0 {
        Seq::empty()
    } else {
        let rest = left_waiting(plans.drop_last(), session);
        let plan = plans.last();
        if plan.frontmatter.mode is Executing && !works_on(session, plan) {
            rest.push(waiting(plan))
        } else {
            rest
        }
    }
}

impl PlanRuntime {
    /// A session in chat mode, without plans and todos.
    pub fn new(session_key: &str) -> (r: PlanRuntime)
        ensures
            r.mode is Chat,
            r.session_key@ == session_key@,
            r.active_planning_plan_id is None,
            r.session_todos@.len() == 0,
    {
        PlanRuntime {
            mode: PlanMode::Chat,
            session_key: session_key.to_owned(),
            active_planning_plan_id: None,
            session_todos: Vec::new(),
        }
    }

    /// The mode of the session.
    pub fn mode(&self) -> (r: PlanMode)
        ensures
            r == self.mode,
    {
        self.mode.copied()
    }

    /// Starts planning: from chat, or after a plan is done. From any other mode it is refused,
    /// and nothing changes.
    pub fn enter_planning(&mut self) -> (r: Result<(), PlanRuntimeError>)
        ensures
            match r {
                Ok(_) => may_enter_planning(old(self).mode) && *final(self) == (PlanRuntime {
                    mode: PlanMode::Planning,
                    ..*old(self)
                }),
                Err(e) => !may_enter_planning(old(self).mode) && *final(self) == *old(self) && (
                e matches PlanRuntimeError::AlreadyInMode(m) && m@ == mode_in_the_way(
                    old(self).mode,
                )),
            },
    {
        match &self.mode {
            PlanMode::Planning => {
                return Err(PlanRuntimeError::AlreadyInMode("planning".to_owned()));
            },
            PlanMode::Executing { plan_id } => {
                return Err(
                    PlanRuntimeError::AlreadyInMode(
                        cat3("executing(plan_id=", plan_id.as_str(), ")"),
                    ),
                );
            },
            PlanMode::Pending { plan_id } => {
                return Err(
                    PlanRuntimeError::AlreadyInMode(
                        cat3("pending(plan_id=", plan_id.as_str(), ")"),
                    ),
                );
            },
            _ => {},
        }
        self.mode = PlanMode::Planning;
        Ok(())
    }

    /// Goes back to chat, from any other mode.
    pub fn exit_to_chat(&mut self) -> (r: Result<(), PlanRuntimeError>)
        ensures
            match r {
                Ok(_) => !(old(self).mode is Chat) && *final(self) == (PlanRuntime {
                    mode: PlanMode::Chat,
                    ..*old(self)
                }),
                Err(e) => old(self).mode is Chat && *final(self) == *old(self) && (
                e matches PlanRuntimeError::AlreadyInMode(m) && m@ == "chat"@),
            },
    {
        if let PlanMode::Chat = self.mode {
            return Err(PlanRuntimeError::AlreadyInMode("chat".to_owned()));
        }
        self.mode = PlanMode::Chat;
        Ok(())
    }

    /// Brings a session that just started into the mode it was in, by the plans that are found: it
    /// goes on with the first plan that it was working on. What other sessions were working on
    /// waits from now on: these plans are returned, as they are to be written.
    pub fn recover(&mut self, plans: Vec<PlanFile>) -> (r: Result<Vec<PlanFile>, PlanRuntimeError>)
        requires
            old(self).mode is Chat,
        ensures
            r is Ok,
            r->Ok_0@ == left_waiting(plans@, old(self).session_key@),
            match first_own(plans@, old(self).session_key@, 0) {
                Some(id) => final(self).mode matches PlanMode::Executing { plan_id } && plan_id@
                    == id && *final(self) == (PlanRuntime {
                    mode: final(self).mode,
                    ..*old(self)
                }),
                None => *final(self) == *old(self),
            },
    {
        let ghost all = plans@;
        let ghost key = self.session_key@;
        let mut left = plans;
        let mut own: Option<String> = None;
        let mut out: Vec<PlanFile> = Vec::new();
        let n: usize = left.len();
        let mut i: usize = 0;
        assert(left@ =~= all.skip(0));
        assert(out@ =~= left_waiting(all.take(0), key));
        while i < n
            invariant
                i <= n == all.len(),
                left@ == all.skip(i as int),
                *self == *old(self),
                key == self.session_key@,
                out@ == left_waiting(all.take(i as int), key),
                (match own {
                    Some(id) => first_own(all, key, 0) == Some(id@),
                    None => first_own(all, key, 0) == first_own(all, key, i as int),
                }),
            decreases n - i,
        {
            assert(all.take(i + 1).drop_last() =~= all.take(i as int));
            assert(all.take(i + 1).last() == all[i as int]);
            let mut plan = left.remove(0);
            assert(plan == all[i as int]);
            assert(left@ =~= all.skip(i + 1));
            if plan.frontmatter.mode == PlanFileMode::Executing {
                let is_own = match &plan.frontmatter.session_key {
                    Some(k) => same(k.as_str(), self.session_key.as_str()),
                    None => false,
                };
                if !is_own {
                    plan.frontmatter.mode = PlanFileMode::Pending;
                    out.push(plan);
                } else if own.is_none() {
                    own = Some(plan.frontmatter.plan_id);
                }
            }
            i = i + 1;
        }
        assert(all.take(all.len() as int) =~= all);
        if let Some(id) = own {
            self.set_executing(id);
        }
        Ok(out)
    }

    /// The plan is being worked on.
    pub fn set_executing(&mut self, plan_id: String)
        ensures
            *final(self) == (PlanRuntime {
                mode: PlanMode::Executing { plan_id },
                ..*old(self)
            }),
    {
        self.mode = PlanMode::Executing { plan_id };
    }

    /// The plan waits to be taken up again.
    pub fn set_mode_pending(&mut self, plan_id: String)
        ensures
            *final(self) == (PlanRuntime { mode: PlanMode::Pending { plan_id }, ..*old(self) }),
    {
        self.mode = PlanMode::Pending { plan_id };
    }

    /// The plan is done.
    pub fn set_mode_completed(&mut self, plan_id: String)
        ensures
            *final(self) == (PlanRuntime {
                mode: PlanMode::Completed { plan_id },
                ..*old(self)
            }),
    {
        self.mode = PlanMode::Completed { plan_id };
    }

    /// The work is broken off: a plan that was being worked on waits from now on.
    pub fn demote_to_pending_on_cancel(&mut self) -> (r: Option<String>)
        ensures
            match old(self).mode {
                PlanMode::Executing { plan_id } => opt_text(r) == Some(plan_id@) && *final(self)
                    == (PlanRuntime { mode: PlanMode::Pending { plan_id }, ..*old(self) }),
                _ => r is None && *final(self) == *old(self),
            },
    {
        let id = match &self.mode {
            PlanMode::Executing { plan_id } => plan_id.clone(),
            _ => {
                return None;
            },
        };
        self.mode = PlanMode::Pending { plan_id: id.clone() };
        Some(id)
    }

    /// Closes a plan that is done: back to chat.
    pub fn finalize_completed_to_chat(&mut self) -> (r: Option<String>)
        ensures
            match old(self).mode {
                PlanMode::Completed { plan_id } => opt_text(r) == Some(plan_id@) && *final(self)
                    == (PlanRuntime { mode: PlanMode::Chat, ..*old(self) }),
                _ => r is None && *final(self) == *old(self),
            },
    {
        let id = match &self.mode {
            PlanMode::Completed { plan_id } => plan_id.clone(),
            _ => {
                return None;
            },
        };
        self.mode = PlanMode::Chat;
        Some(id)
    }

    /// Remembers the plan that was drafted last.
    pub fn set_active_planning_plan_id(&mut self, plan_id: String)
        ensures
            *final(self) == (PlanRuntime {
                active_planning_plan_id: Some(plan_id),
                ..*old(self)
            }),
    {
        self.active_planning_plan_id = Some(plan_id);
    }

    /// Replaces the todos of the session.
    pub fn replace_session_todos(&mut self, todos: Vec<TodoItem>)
        ensures
            *final(self) == (PlanRuntime { session_todos: todos, ..*old(self) }),
    {
        self.session_todos = todos;
    }
}

/// Recovery takes no plan from the session that works on it: what is left waiting is what no one
/// works on any more, and is not this session's.
pub proof fn law_own_plans_are_not_left_waiting(plans: Seq<PlanFile>, session: Seq<char>)
    ensures
        forall|i: int| 0 <= i < left_waiting(plans, session).len() ==> {
            let left = #[trigger] left_waiting(plans, session)[i];
            left.frontmatter.mode is Pending && !(left.frontmatter.session_key matches Some(k)
                && k@ == session)
        },
    decreases plans.len(),
{
    if plans.len() > 0 {
        law_own_plans_are_not_left_waiting(plans.drop_last(), session);
    }
}

/// Only the modes of a plan that was built name one.
pub proof fn law_attached_modes_name_a_plan(mode: PlanMode)
    ensures
        plan_of(mode) is Some <==> mode is Executing || mode is Pending || mode is Completed,
{
}

/// A session goes on with the first of the plans that it was working on, and with none if there is none:
/// a plan that is not worked on, or by someone else, never counts.
pub proof fn law_sessions_go_on_with_their_first_plan(
    plans: Seq<PlanFile>,
    session: Seq<char>,
    from: int,
)
    requires
        0 <= from <= plans.len(),
    ensures
        match first_own(plans, session, from) {
            Some(id) => exists|i: int|
                from <= i < plans.len() && (#[trigger] plans[i]).frontmatter.plan_id@ == id
                    && plans[i].frontmatter.mode is Executing && opt_text(
                    plans[i].frontmatter.session_key,
                ) == Some(session) && forall|j: int|
                    from <= j < i ==> !((#[trigger] plans[j]).frontmatter.mode is Executing && opt_text(
                        plans[j].frontmatter.session_key,
                    ) == Some(session)),
            None => forall|i: int|
                from <= i < plans.len() ==> !((#[trigger] plans[i]).frontmatter.mode is Executing
                    && opt_text(plans[i].frontmatter.session_key) == Some(session)),
        },
    decreases plans.len() - from,
{
    if from < plans.len() {
        let p = plans[from];
        assert(works_on(session, p) <==> p.frontmatter.mode is Executing && opt_text(
            p.frontmatter.session_key,
        ) == Some(session));
        if !works_on(session, p) {
            law_sessions_go_on_with_their_first_plan(plans, session, from + 1);
        }
    }
}

/// Recovery leaves waiting exactly the plans that are being worked on but not by this session: all of them,
/// in order, each unchanged but for its mode.
pub proof fn law_recovery_leaves_others_waiting(plans: Seq<PlanFile>, session: Seq<char>)
    ensures
        left_waiting(plans, session) == plans.filter(
            |p: PlanFile|
                p.frontmatter.mode is Executing && opt_text(p.frontmatter.session_key) != Some(session),
        ).map_values(|p: PlanFile| waiting(p)),
    decreases plans.len(),
{
    reveal(Seq::filter);
    let left = |p: PlanFile|
        p.frontmatter.mode is Executing && opt_text(p.frontmatter.session_key) != Some(session);
    let wait = |p: PlanFile| waiting(p);
    if plans.len() > 0 {
        let front = plans.drop_last();
        law_recovery_leaves_others_waiting(front, session);
        let p = plans.last();
        assert(left(p) <==> p.frontmatter.mode is Executing && !works_on(session, p));
        if left(p) {
            assert(plans.filter(left).map_values(wait) =~= front.filter(left).map_values(wait).push(
                waiting(p),
            ));
        }
    } else {
        assert(left_waiting(plans, session) =~= plans.filter(left).map_values(wait));
    }
}

/// A plan that waits is the same plan: nothing of it changes but its mode.
pub proof fn law_waiting_changes_the_mode_only(plan: PlanFile)
    ensures
        waiting(plan).frontmatter.mode is Pending,
        waiting(plan).body == plan.body,
        waiting(plan).frontmatter.plan_id == plan.frontmatter.plan_id,
        waiting(plan).frontmatter.goal == plan.frontmatter.goal,
        waiting(plan).frontmatter.session_key == plan.frontmatter.session_key,
        waiting(plan).frontmatter.session_id == plan.frontmatter.session_id,
        waiting(plan).frontmatter.created_at == plan.frontmatter.created_at,
        waiting(plan).frontmatter.schema_version == plan.frontmatter.schema_version,
        waiting(plan).frontmatter.milestones == plan.frontmatter.milestones,
        waiting(plan).frontmatter.todos == plan.frontmatter.todos,
{
}

/// Planning starts from chat or behind a plan that is done, and never while a plan is drafted, worked on
/// or waits.
#[verifier::rlimit(40)]
#[verifier::spinoff_prover]
pub proof fn law_planning_starts_between_plans(mode: PlanMode)
    ensures
        may_enter_planning(mode) <==> !(mode is Planning) && !(mode is Executing) && !(mode is Pending),
        !may_enter_planning(mode) ==> crate::search::has_prefix(mode_in_the_way(mode), mode_word(mode)),
        mode matches PlanMode::Executing { plan_id } ==> crate::search::has_text(
            mode_in_the_way(mode),
            plan_id@,
        ),
        mode matches PlanMode::Pending { plan_id } ==> crate::search::has_text(
            mode_in_the_way(mode),
            plan_id@,
        ),
{
    reveal_strlit("executing");
    reveal_strlit("executing(plan_id=");
    reveal_strlit("pending");
    reveal_strlit("pending(plan_id=");
    let m = mode_in_the_way(mode);
    let w = mode_word(mode);
    match mode {
        PlanMode::Executing { plan_id } => {
            assert("executing(plan_id="@.subrange(0, 9) =~= "executing"@);
            assert(m.subrange(0, 9) =~= "executing(plan_id="@.subrange(0, 9));
            crate::search::lemma_text_in_itself(plan_id@);
            crate::search::lemma_text_within("executing(plan_id="@, plan_id@, ")"@, plan_id@);
        },
        PlanMode::Pending { plan_id } => {
            assert("pending(plan_id="@.subrange(0, 7) =~= "pending"@);
            assert(m.subrange(0, 7) =~= "pending(plan_id="@.subrange(0, 7));
            crate::search::lemma_text_in_itself(plan_id@);
            crate::search::lemma_text_within("pending(plan_id="@, plan_id@, ")"@, plan_id@);
        },
        _ => {
            assert(m.subrange(0, w.len() as int) =~= w);
        },
    }
}

} // verus!

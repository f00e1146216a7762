//! The files that plans live in: front matter between two lines of dashes, then a body.

use vstd::prelude::*;
use vstd::string::*;

use crate::paths::join_path;
#[allow(unused_imports)]
use crate::paths::path_joined;
use crate::plan_runtime::safety::assert_plan_id_safe_for_disk;
#[allow(unused_imports)]
use crate::plan_runtime::safety::{complaint, is_safe};
use crate::search::{find_text, strip_prefix};
#[allow(unused_imports)]
use crate::search::{has_prefix, has_text, lemma_next_text, next_text, stands_at};
use crate::text::{cat, cat4, chars_of, copy_opt, same, slice_text};

verus! {

/// How far a todo is.
#[derive(Clone, Copy, Debug, PartialEq, Eq, Structural)]
pub enum TodoStatus {
    Pending,
    InProgress,
    Completed,
    Cancelled,
}

/// The word for a status.
pub open spec fn status_word(s: TodoStatus) -> Seq<char> {
    match s {
        TodoStatus::Pending => "pending"@,
        TodoStatus::InProgress => "in_progress"@,
        TodoStatus::Completed => "completed"@,
        TodoStatus::Cancelled => "cancelled"@,
    }
}

/// The mark of a status in a list.
pub open spec fn status_mark(s: TodoStatus) -> Seq<char> {
    match s {
        TodoStatus::Completed => "x"@,
        TodoStatus::InProgress => "~"@,
        TodoStatus::Cancelled => "-"@,
        TodoStatus::Pending => " "@,
    }
}

impl TodoStatus {
    /// The word for the status.
    pub fn as_str(self) -> (r: &'static str)
        ensures
            r@ == status_word(self),
    {
        match self {
            TodoStatus::Pending => "pending",
            TodoStatus::InProgress => "in_progress",
            TodoStatus::Completed => "completed",
            TodoStatus::Cancelled => "cancelled",
        }
    }

    /// The mark of the status in a list.
    pub fn mark(self) -> (r: &'static str)
        ensures
            r@ == status_mark(self),
    {
        match self {
            TodoStatus::Completed => "x",
            TodoStatus::InProgress => "~",
            TodoStatus::Cancelled => "-",
            TodoStatus::Pending => " ",
        }
    }
}

/// A thing to do.
#[derive(Clone, Debug, PartialEq, Eq)]
pub struct TodoItem {
    pub id: String,
    pub content: String,
    pub status: TodoStatus,
    pub milestone_id: Option<String>,
}

/// A thing to do, as mathematics.
pub ghost struct Todo {
    pub id: Seq<char>,
    pub content: Seq<char>,
    pub status: TodoStatus,
    pub milestone_id: Option<Seq<char>>,
}

impl View for TodoItem {
    type V = Todo;

    open spec fn view(&self) -> Todo {
        Todo {
            id: self.id@,
            content: self.content@,
            status: self.status,
            milestone_id: crate::text::opt_text(self.milestone_id),
        }
    }
}

/// The todos of a list.
pub open spec fn todos_view(v: Seq<TodoItem>) -> Seq<Todo> {
    v.map_values(|t: TodoItem| t@)
}

impl TodoItem {
    /// The same todo.
    pub fn copied(&self) -> (r: TodoItem)
        ensures
            r == *self,
    {
        TodoItem {
            id: self.id.clone(),
            content: self.content.clone(),
            status: self.status,
            milestone_id: copy_opt(&self.milestone_id),
        }
    }
}

/// The same todos.
pub fn copy_todos(todos: &Vec<TodoItem>) -> (r: Vec<TodoItem>)
    ensures
        r@ == todos@,
{
    let mut out: Vec<TodoItem> = Vec::new();
    let mut i: usize = 0;
    while i < todos.len()
        invariant
            i <= todos@.len(),
            out@ == todos@.take(i as int),
        decreases todos@.len() - i,
    {
        out.push(todos[i].copied());
        assert(todos@.take(i + 1) =~= todos@.take(i as int).push(todos@[i as int]));
        i = i + 1;
    }
    assert(todos@.take(todos@.len() as int) =~= todos@);
    out
}

/// A milestone of a plan.
#[derive(Clone, Debug, PartialEq, Eq)]
pub struct Milestone {
    pub id: String,
    pub title: String,
    pub todo_ids: Vec<String>,
}

/// The mode that a plan's file is in.
#[derive(Clone, Copy, Debug, PartialEq, Eq, Structural)]
pub enum PlanFileMode {
    Planning,
    Executing,
    Pending,
    Completed,
}

/// The word for a mode.
pub open spec fn file_mode_word(m: PlanFileMode) -> Seq<char> {
    match m {
        PlanFileMode::Planning => "planning"@,
        PlanFileMode::Executing => "executing"@,
        PlanFileMode::Pending => "pending"@,
        PlanFileMode::Completed => "completed"@,
    }
}

impl PlanFileMode {
    /// The word for the mode.
    pub fn as_str(self) -> (r: &'static str)
        ensures
            r@ == file_mode_word(self),
    {
        match self {
            PlanFileMode::Planning => "planning",
            PlanFileMode::Executing => "executing",
            PlanFileMode::Pending => "pending",
            PlanFileMode::Completed => "completed",
        }
    }
}

/// The version of the front matter.
pub const PLAN_FILE_SCHEMA_VERSION: u32 = 1;

/// The front matter of a plan.
#[derive(Clone, Debug, PartialEq, Eq)]
pub struct PlanFileFrontmatter {
    pub plan_id: String,
    pub goal: String,
    pub mode: PlanFileMode,
    pub session_key: Option<String>,
    pub session_id: Option<String>,
    pub created_at: String,
    pub schema_version: u32,
    pub milestones: Vec<Milestone>,
    pub todos: Vec<TodoItem>,
}

/// A plan as its file holds it.
#[derive(Clone, Debug, PartialEq, Eq)]
pub struct PlanFile {
    pub frontmatter: PlanFileFrontmatter,
    pub body: String,
}

/// What can be wrong with a plan's file.
#[derive(Clone, Debug, PartialEq, Eq)]
pub enum PlanError {
    FrontmatterDelimMissing,
    MissingField { field: String },
    SchemaVersion { actual: u32, expected: u32 },
    MultipleInProgress { count: usize },
    DuplicateTodoId { id: String },
    InvalidPlanId { reason: String },
}

// ---------------------------------------------------------------- todos of a plan

/// How many todos are in progress.
pub open spec fn in_progress_count(todos: Seq<TodoItem>) -> nat
    decreases todos.len(),
{
    if todos.len() == 0 {
        0
    } else {
        in_progress_count(todos.drop_last()) + (if todos.last().status is InProgress {
            1nat
        } else {
            0nat
        })
    }
}

/// The place of the first todo whose id stands earlier too; the number of todos if there is none.
pub open spec fn first_repeat(todos: Seq<TodoItem>, from: int) -> int
    decreases todos.len() - from,
{
    if from >= todos.len() {
        todos.len() as int
    } else if stands_before(todos, from) {
        from
    } else {
        first_repeat(todos, from + 1)
    }
}

/// Whether the id of a todo stands at an earlier place too.
pub open spec fn stands_before(todos: Seq<TodoItem>, at: int) -> bool {
    exists|j: int| 0 <= j < at && (#[trigger] todos[j]).id@ == todos[at].id@
}

/// Whether no id stands twice.
pub open spec fn distinct_ids(todos: Seq<TodoItem>) -> bool {
    forall|i: int, j: int|
        0 <= i < j < todos.len() ==> (#[trigger] todos[i]).id@ != (#[trigger] todos[j]).id@
}

/// Without a repeat, all ids are different.
pub proof fn lemma_no_repeat(todos: Seq<TodoItem>, from: int)
    requires
        0 <= from <= todos.len(),
        first_repeat(todos, from) == todos.len(),
    ensures
        forall|i: int, j: int|
            0 <= i < j < todos.len() && from <= j ==> (#[trigger] todos[i]).id@
                != (#[trigger] todos[j]).id@,
    decreases todos.len() - from,
{
    if from < todos.len() {
        lemma_no_repeat(todos, from + 1);
        assert forall|i: int, j: int|
            0 <= i < j < todos.len() && from <= j implies (#[trigger] todos[i]).id@ != (
        #[trigger] todos[j]).id@ by {
            if j == from {
                assert(!stands_before(todos, from));
            }
        }
    }
}

/// How many todos are in progress.
pub fn count_in_progress(todos: &Vec<TodoItem>) -> (r: usize)
    ensures
        r == in_progress_count(todos@),
{
    let mut n: usize = 0;
    let mut i: usize = 0;
    while i < todos.len()
        invariant
            i <= todos@.len(),
            n <= i,
            n == in_progress_count(todos@.take(i as int)),
        decreases todos@.len() - i,
    {
        assert(todos@.take(i + 1).drop_last() =~= todos@.take(i as int));
        if todos[i].status == TodoStatus::InProgress {
            n = n + 1;
        }
        i = i + 1;
    }
    assert(todos@.take(todos@.len() as int) =~= todos@);
    n
}

/// The place of the first todo whose id stands earlier too.
pub fn find_repeat(todos: &Vec<TodoItem>) -> (r: Option<usize>)
    ensures
        match r {
            Some(i) => i == first_repeat(todos@, 0) && i < todos@.len(),
            None => first_repeat(todos@, 0) == todos@.len(),
        },
{
    let mut i: usize = 0;
    while i < todos.len()
        invariant
            i <= todos@.len(),
            first_repeat(todos@, i as int) == first_repeat(todos@, 0),
        decreases todos@.len() - i,
    {
        let mut k: usize = 0;
        while k < i
            invariant
                k <= i < todos@.len(),
                first_repeat(todos@, i as int) == first_repeat(todos@, 0),
                forall|j: int| 0 <= j < k ==> (#[trigger] todos@[j]).id@ != todos@[i as int].id@,
            decreases i - k,
        {
            if same(todos[k].id.as_str(), todos[i].id.as_str()) {
                assert(stands_before(todos@, i as int));
                return Some(i);
            }
            k = k + 1;
        }
        assert(!stands_before(todos@, i as int));
        i = i + 1;
    }
    None
}

/// The rules for front matter, in the order in which they are looked at: a plan has an id and a
/// goal, the version is the known one, no todo stands twice, and at most one is in progress.
pub open spec fn is_frontmatter_error(fm: PlanFileFrontmatter, e: PlanError) -> bool {
    if fm.plan_id@.len() == 0 {
        e matches PlanError::MissingField { field } && field@ == "plan_id"@
    } else if fm.goal@.len() == 0 {
        e matches PlanError::MissingField { field } && field@ == "goal"@
    } else if fm.schema_version != PLAN_FILE_SCHEMA_VERSION {
        e == (PlanError::SchemaVersion {
            actual: fm.schema_version,
            expected: PLAN_FILE_SCHEMA_VERSION,
        })
    } else if first_repeat(fm.todos@, 0) < fm.todos@.len() {
        e matches PlanError::DuplicateTodoId { id } && id@ == fm.todos@[first_repeat(
            fm.todos@,
            0,
        )].id@
    } else {
        e matches PlanError::MultipleInProgress { count } && count == in_progress_count(fm.todos@)
    }
}

/// Whether front matter keeps the rules.
pub open spec fn is_frontmatter_valid(fm: PlanFileFrontmatter) -> bool {
    fm.plan_id@.len() > 0 && fm.goal@.len() > 0 && fm.schema_version == PLAN_FILE_SCHEMA_VERSION
        && first_repeat(fm.todos@, 0) == fm.todos@.len() && in_progress_count(fm.todos@) <= 1
}

/// Whether front matter keeps the rules, and if not, which one it breaks first.
pub fn validate_frontmatter_invariants(fm: &PlanFileFrontmatter) -> (r: Result<(), PlanError>)
    ensures
        match r {
            Ok(_) => is_frontmatter_valid(*fm),
            Err(e) => !is_frontmatter_valid(*fm) && is_frontmatter_error(*fm, e),
        },
{
    if fm.plan_id.as_str().is_empty() {
        return Err(PlanError::MissingField { field: "plan_id".to_owned() });
    }
    if fm.goal.as_str().is_empty() {
        return Err(PlanError::MissingField { field: "goal".to_owned() });
    }
    if fm.schema_version != PLAN_FILE_SCHEMA_VERSION {
        return Err(
            PlanError::SchemaVersion {
                actual: fm.schema_version,
                expected: PLAN_FILE_SCHEMA_VERSION,
            },
        );
    }
    if let Some(i) = find_repeat(&fm.todos) {
        return Err(PlanError::DuplicateTodoId { id: fm.todos[i].id.clone() });
    }
    let count = count_in_progress(&fm.todos);
    if count > 1 {
        return Err(PlanError::MultipleInProgress { count });
    }
    Ok(())
}

/// Valid front matter names each todo once.
pub proof fn law_valid_frontmatter_has_distinct_todos(fm: PlanFileFrontmatter)
    requires
        is_frontmatter_valid(fm),
    ensures
        distinct_ids(fm.todos@),
        in_progress_count(fm.todos@) <= 1,
{
    lemma_no_repeat(fm.todos@, 0);
}

// ---------------------------------------------------------------- the parts of a file

/// The front matter and the body of a plan's text: what stands between a first line of dashes and
/// the next line of dashes, and what follows that.
pub open spec fn file_parts(text: Seq<char>) -> Option<(Seq<char>, Seq<char>)> {
    if !has_prefix(text, "---\n"@) {
        None
    } else {
        let rest = text.skip("---\n"@.len() as int);
        match next_text(rest, "\n---\n"@, 0) {
            Some(i) => Some((rest.take(i + 1), rest.skip(i + "\n---\n"@.len()))),
            None => None,
        }
    }
}

/// The front matter and the body of a plan's text.
pub fn split_plan_text(text: &str) -> (r: Result<(String, String), PlanError>)
    ensures
        match r {
            Ok(p) => file_parts(text@) == Some((p.0@, p.1@)),
            Err(e) => file_parts(text@) is None && e is FrontmatterDelimMissing,
        },
{
    proof {
        reveal_strlit("\n---\n");
    }
    match strip_prefix(text, "---\n") {
        None => Err(PlanError::FrontmatterDelimMissing),
        Some(rest) => {
            let v = chars_of(rest.as_str());
            let w = chars_of("\n---\n");
            let n: usize = v.len();
            match find_text(&v, &w, 0) {
                None => Err(PlanError::FrontmatterDelimMissing),
                Some(i) => {
                    proof {
                        lemma_next_text(rest@, "\n---\n"@, 0);
                        assert("\n---\n"@.len() == 5);
                    }
                    let head = slice_text(&v, 0, i + 1);
                    let body = slice_text(&v, i + w.len(), n);
                    assert(head@ =~= rest@.take(i + 1));
                    assert(body@ =~= rest@.skip(i + "\n---\n"@.len()));
                    Ok((head, body))
                },
            }
        },
    }
}

/// The text of a plan's file: the front matter between two lines of dashes, then the body.
pub open spec fn file_text(front: Seq<char>, body: Seq<char>) -> Seq<char> {
    "---\n"@ + front + "---\n"@ + body
}

/// The text of a plan's file.
pub fn render_plan_text(front: &str, body: &str) -> (r: String)
    ensures
        r@ == file_text(front@, body@),
{
    cat4("---\n", front, "---\n", body)
}

/// What was written to a plan's file is read from it: front matter that ends with a line and holds no
/// line of dashes, and any body.
pub proof fn law_plan_text_is_read_back(front: Seq<char>, body: Seq<char>)
    requires
        front.len() > 0,
        front.last() == '\n',
        !has_text(front, "\n---\n"@),
    ensures
        file_parts(file_text(front, body)) == Some((front, body)),
{
    reveal_strlit("---\n");
    reveal_strlit("\n---\n");
    let bar = "\n---\n"@;
    let text = file_text(front, body);
    let rest = front + "---\n"@ + body;
    let n = front.len() as int;
    assert(text.subrange(0, 4) =~= "---\n"@);
    assert(text.skip(4) =~= rest);
    assert(rest.subrange(n - 1, n + 4) =~= bar);
    assert(stands_at(rest, bar, n - 1));
    lemma_next_text(rest, bar, 0);
    let i = next_text(rest, bar, 0)->0;
    assert(i == n - 1) by {
        if i < n - 1 {
            let at = rest.subrange(i, i + 5);
            if i + 5 <= n {
                assert(front.subrange(i, i + 5) =~= at);
                assert(stands_at(front, bar, i));
            } else {
                assert(at[n - 1 - i] == front.last());
                assert(bar[n - 1 - i] == '-');
            }
        }
    }
    assert(rest.take(n) =~= front);
    assert(rest.skip(n + 4) =~= body);
}

/// The directory of the plans below the home directory.
pub open spec fn plans_dir_path(home: Seq<char>) -> Seq<char> {
    path_joined(path_joined(home, ".tomcat"@), "plans"@)
}

/// The file of a plan.
pub open spec fn plan_path(home: Seq<char>, plan_id: Seq<char>) -> Seq<char> {
    path_joined(plans_dir_path(home), plan_id + ".plan.md"@)
}

/// The file of a plan, if its id is safe.
pub fn plan_path_for_id(home: &str, plan_id: &str) -> (r: Result<String, PlanError>)
    ensures
        match r {
            Ok(p) => is_safe(plan_id@) && p@ == plan_path(home@, plan_id@),
            Err(e) => !is_safe(plan_id@) && (e matches PlanError::InvalidPlanId { reason } && reason@
                == "plan_id 非法或不安全："@ + complaint(plan_id@)),
        },
{
    match assert_plan_id_safe_for_disk(plan_id) {
        Err(e) => Err(PlanError::InvalidPlanId { reason: e.message() }),
        Ok(_) => {
            let dir = join_path(join_path(home, ".tomcat").as_str(), "plans");
            Ok(join_path(dir.as_str(), cat(plan_id, ".plan.md").as_str()))
        },
    }
}

/// The file of a plan as an agent is told of it: where it is, or where it would be if its id is not
/// safe.
pub fn told_plan_path(home: &str, plan_id: &str) -> (r: String)
    ensures
        r@ == (if is_safe(plan_id@) {
            plan_path(home@, plan_id@)
        } else {
            "~/.tomcat/plans/"@ + plan_id@ + ".plan.md"@
        }),
{
    match plan_path_for_id(home, plan_id) {
        Ok(p) => p,
        Err(_) => crate::text::cat3("~/.tomcat/plans/", plan_id, ".plan.md"),
    }
}

/// The file of a plan with a safe id lies directly in the directory of the plans.
pub proof fn law_plan_files_stay_in_their_directory(home: Seq<char>, plan_id: Seq<char>)
    requires
        is_safe(plan_id),
        home.len() > 0,
    ensures
        plan_path(home, plan_id) == plans_dir_path(home) + "/"@ + plan_id + ".plan.md"@,
        !(plan_id + ".plan.md"@).contains('/'),
{
    reveal_strlit("/");
    reveal_strlit("plans");
    reveal_strlit(".tomcat");
    reveal_strlit(".plan.md");
    crate::plan_runtime::safety::law_safe_ids_stay_inside(plan_id);
    let dir = plans_dir_path(home);
    let name = plan_id + ".plan.md"@;
    let inner = path_joined(home, ".tomcat"@);
    assert forall|i: int| 0 <= i < name.len() implies name[i] != '/' by {
        if i < plan_id.len() {
            assert(plan_id.contains(plan_id[i]));
        }
    }
    assert(!has_prefix("plans"@, "/"@)) by {
        assert("plans"@.subrange(0, 1)[0] == 'p');
    }
    assert(!has_prefix(name, "/"@)) by {
        if has_prefix(name, "/"@) {
            assert(name.subrange(0, 1)[0] == name[0]);
        }
    }
    assert(dir.len() > 0 && dir.last() == 's') by {
        assert("plans"@[4] == 's');
    }
    assert(!crate::search::has_suffix(dir, "/"@)) by {
        if crate::search::has_suffix(dir, "/"@) {
            assert(dir.subrange(dir.len() - 1, dir.len() as int)[0] == dir.last());
        }
    }
    assert(dir + "/"@ + name =~= dir + "/"@ + plan_id + ".plan.md"@);
}

proof fn lemma_first_repeat(todos: Seq<TodoItem>, from: int)
    requires
        0 <= from <= todos.len(),
    ensures
        from <= first_repeat(todos, from) <= todos.len(),
        first_repeat(todos, from) < todos.len() ==> stands_before(todos, first_repeat(todos, from)),
        forall|k: int| from <= k < first_repeat(todos, from) ==> !#[trigger] stands_before(todos, k),
    decreases todos.len() - from,
{
    if from < todos.len() && !stands_before(todos, from) {
        lemma_first_repeat(todos, from + 1);
    }
}

proof fn lemma_in_progress_filters(todos: Seq<TodoItem>)
    ensures
        in_progress_count(todos) == todos.filter(|t: TodoItem| t.status is InProgress).len(),
    decreases todos.len(),
{
    reveal(Seq::filter);
    if todos.len() > 0 {
        lemma_in_progress_filters(todos.drop_last());
    }
}

/// Front matter is valid exactly if it has an id and a goal, is of the known version, names each todo
/// once, and has at most one in progress.
pub proof fn law_front_matter_rules(fm: PlanFileFrontmatter)
    ensures
        is_frontmatter_valid(fm) <==> {
            &&& fm.plan_id@.len() > 0
            &&& fm.goal@.len() > 0
            &&& fm.schema_version == 1
            &&& forall|i: int, j: int|
                0 <= i < j < fm.todos@.len() ==> (#[trigger] fm.todos@[i]).id@ != (
                #[trigger] fm.todos@[j]).id@
            &&& fm.todos@.filter(|t: TodoItem| t.status is InProgress).len() <= 1
        },
{
    lemma_in_progress_filters(fm.todos@);
    lemma_first_repeat(fm.todos@, 0);
    let k = first_repeat(fm.todos@, 0);
    if k == fm.todos@.len() {
        lemma_no_repeat(fm.todos@, 0);
    } else {
        let j = choose|j: int| 0 <= j < k && (#[trigger] fm.todos@[j]).id@ == fm.todos@[k].id@;
        assert(fm.todos@[j].id@ == fm.todos@[k].id@);
    }
}

/// An error names a fault that is there: the field that is missing, the version that is found, the id
/// that stands twice, the number of todos in progress.
pub proof fn law_front_matter_errors_are_true(fm: PlanFileFrontmatter, e: PlanError)
    requires
        !is_frontmatter_valid(fm),
        is_frontmatter_error(fm, e),
    ensures
        match e {
            PlanError::MissingField { field } => field@ == "plan_id"@ && fm.plan_id@.len() == 0
                || field@ == "goal"@ && fm.goal@.len() == 0,
            PlanError::SchemaVersion { actual, expected } => actual == fm.schema_version && expected
                == 1 && actual != expected,
            PlanError::DuplicateTodoId { id } => exists|i: int, j: int|
                0 <= i < j < fm.todos@.len() && (#[trigger] fm.todos@[i]).id@ == id@ && (
                #[trigger] fm.todos@[j]).id@ == id@,
            PlanError::MultipleInProgress { count } => count > 1 && count == fm.todos@.filter(
                |t: TodoItem| t.status is InProgress,
            ).len(),
            _ => false,
        },
{
    lemma_in_progress_filters(fm.todos@);
    lemma_first_repeat(fm.todos@, 0);
    let k = first_repeat(fm.todos@, 0);
    if k < fm.todos@.len() {
        let j = choose|j: int| 0 <= j < k && (#[trigger] fm.todos@[j]).id@ == fm.todos@[k].id@;
        assert(fm.todos@[j].id@ == fm.todos@[k].id@);
    }
}

/// A list shows a cross for what is done, a wave for what is in progress, a dash for what was given up
/// and nothing for what is left, as a task list does.
pub proof fn law_marks_tell_the_status(s: TodoStatus)
    ensures
        status_mark(s) == seq!['x'] <==> s is Completed,
        status_mark(s) == seq!['~'] <==> s is InProgress,
        status_mark(s) == seq!['-'] <==> s is Cancelled,
        status_mark(s) == seq![' '] <==> s is Pending,
{
    reveal_strlit(" ");
    reveal_strlit("~");
    reveal_strlit("x");
    reveal_strlit("-");
    assert(" "@ =~= seq![' ']);
    assert("~"@ =~= seq!['~']);
    assert("x"@ =~= seq!['x']);
    assert("-"@ =~= seq!['-']);
    let m = status_mark(s);
    assert(m.len() == 1);
    assert(seq!['x'][0] == 'x' && seq!['~'][0] == '~' && seq!['-'][0] == '-' && seq![' '][0] == ' ');
    assert(m[0] == 'x' <==> s is Completed);
    assert(m[0] == '~' <==> s is InProgress);
    assert(m[0] == '-' <==> s is Cancelled);
    assert(m[0] == ' ' <==> s is Pending);
}

/// A plan's text is split where the second line of dashes stands: the front matter ends with a line
/// feed, nothing of the text is lost, and a text that does not begin with a line of dashes is no plan.
pub proof fn law_plan_text_is_split_whole(text: Seq<char>)
    ensures
        file_parts(text) matches Some(p) ==> {
            &&& text == "---\n"@ + p.0 + "---\n"@ + p.1
            &&& p.0.len() > 0
            &&& p.0.last() == '\n'
        },
        file_parts(text) is None ==> !has_prefix(text, "---\n"@) || !has_text(
            text.skip(4),
            "\n---\n"@,
        ),
{
    reveal_strlit("---\n");
    reveal_strlit("\n---\n");
    let bar = "\n---\n"@;
    if has_prefix(text, "---\n"@) {
        let rest = text.skip(4);
        lemma_next_text(rest, bar, 0);
        assert(text =~= "---\n"@ + rest) by {
            assert(text.subrange(0, 4) == "---\n"@);
            assert forall|i: int| 0 <= i < 4 implies text[i] == "---\n"@[i] by {
                assert(text.subrange(0, 4)[i] == text[i]);
            }
        }
        if let Some(i) = next_text(rest, bar, 0) {
            assert forall|k: int| 0 <= k < 5 implies rest[i + k] == bar[k] by {
                assert(rest.subrange(i, i + 5)[k] == rest[i + k]);
            }
            assert(rest.skip(i + 1).take(4) =~= "---\n"@) by {
                assert forall|k: int| 0 <= k < 4 implies rest[i + 1 + k] == "---\n"@[k] by {
                    assert(rest[i + (k + 1)] == bar[k + 1]);
                }
            }
            assert(rest[i + 0] == bar[0]);
            assert(rest =~= rest.take(i + 1) + rest.skip(i + 1).take(4) + rest.skip(i + 5));
            assert(text =~= "---\n"@ + rest.take(i + 1) + "---\n"@ + rest.skip(i + 5));
        }
    }
}

} // verus!

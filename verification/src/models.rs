//! The task entity, the enumerations that classify it and the plain records
//! exchanged with the planning service.

use vstd::prelude::*;

verus! {

/// Progress of a task.
#[derive(Debug, Clone, Copy, PartialEq, Eq, Structural)]
pub enum TaskStatus {
    NotStarted,
    InProgress,
    Completed,
    Cancelled,
}

/// Urgency of a task. It is set by the planning service only.
#[derive(Debug, Clone, Copy, PartialEq, Eq, Structural)]
pub enum TaskPriority {
    Low,
    Medium,
    High,
    Urgent,
}

/// The planning period a task belongs to.
#[derive(Debug, Clone, Copy, PartialEq, Eq, Structural)]
pub enum PeriodType {
    Daily,
    Weekly,
    Monthly,
    Quarterly,
    Yearly,
}

impl TaskStatus {
    /// The status that follows `self` in the cycle
    /// NotStarted, InProgress, Completed, Cancelled, NotStarted.
    pub open spec fn spec_next(&self) -> TaskStatus {
        match self {
            TaskStatus::NotStarted => TaskStatus::InProgress,
            TaskStatus::InProgress => TaskStatus::Completed,
            TaskStatus::Completed => TaskStatus::Cancelled,
            TaskStatus::Cancelled => TaskStatus::NotStarted,
        }
    }

    /// Advances the status by one step of its cycle. Every status has a
    /// successor, so the step never fails.
    #[verifier::when_used_as_spec(spec_next)]
    pub fn next(&self) -> (r: TaskStatus)
        ensures
            r == self.spec_next(),
    {
        match self {
            TaskStatus::NotStarted => TaskStatus::InProgress,
            TaskStatus::InProgress => TaskStatus::Completed,
            TaskStatus::Completed => TaskStatus::Cancelled,
            TaskStatus::Cancelled => TaskStatus::NotStarted,
        }
    }

    /// The glyph drawn in front of a task with this status.
    pub open spec fn spec_icon(&self) -> Seq<char> {
        match self {
            TaskStatus::NotStarted => "⭕"@,
            TaskStatus::InProgress => "⏳"@,
            TaskStatus::Completed => "✓"@,
            TaskStatus::Cancelled => "⛔"@,
        }
    }

    /// The glyph drawn in front of a task with this status.
    pub fn icon(&self) -> (r: &'static str)
        ensures
            r@ == self.spec_icon(),
    {
        match self {
            TaskStatus::NotStarted => "⭕",
            TaskStatus::InProgress => "⏳",
            TaskStatus::Completed => "✓",
            TaskStatus::Cancelled => "⛔",
        }
    }
}

impl TaskPriority {
    /// The bracketed label of this priority.
    pub open spec fn spec_display(&self) -> Seq<char> {
        match self {
            TaskPriority::Low => "[低]"@,
            TaskPriority::Medium => "[中]"@,
            TaskPriority::High => "[高]"@,
            TaskPriority::Urgent => "[急]"@,
        }
    }

    /// The bracketed label of this priority.
    pub fn display(&self) -> (r: &'static str)
        ensures
            r@ == self.spec_display(),
    {
        match self {
            TaskPriority::Low => "[低]",
            TaskPriority::Medium => "[中]",
            TaskPriority::High => "[高]",
            TaskPriority::Urgent => "[急]",
        }
    }
}

/// Four applications of `next` lead back to the status one started from, and
/// no fewer do.
pub proof fn lemma_status_cycle_closes(s: TaskStatus)
    ensures
        s.next().next().next().next() == s,
        s.next() != s,
        s.next().next() != s,
        s.next().next().next() != s,
{
}

/// An instant on the UTC time line: whole seconds since the Unix epoch and
/// the nanoseconds past that second.
#[derive(Debug, Clone, Copy, PartialEq, Eq, Structural)]
pub struct Timestamp {
    pub secs: i64,
    pub nanos: u32,
}

impl Timestamp {
    /// `self` is not later than `other`.
    pub open spec fn spec_le(&self, other: &Timestamp) -> bool {
        self.secs < other.secs || (self.secs == other.secs && self.nanos <= other.nanos)
    }

    /// Tells whether `self` is not later than `other`.
    #[verifier::when_used_as_spec(spec_le)]
    pub fn le(&self, other: &Timestamp) -> (r: bool)
        ensures
            r == self.spec_le(other),
    {
        self.secs < other.secs || (self.secs == other.secs && self.nanos <= other.nanos)
    }
}

/// A half-open interval `[start, end)` of time.
#[derive(Debug, Clone, Copy, PartialEq, Eq, Structural)]
pub struct Period {
    pub start: Timestamp,
    pub end: Timestamp,
}

impl Period {
    /// The interval does not end before it starts.
    pub open spec fn well_formed(&self) -> bool {
        self.start.le(&self.end)
    }

    /// The interval from `start` to `end`, if `start` is not later than `end`.
    pub fn new(start: Timestamp, end: Timestamp) -> (r: Option<Period>)
        ensures
            r == if start.le(&end) {
                Some(Period { start, end })
            } else {
                None
            },
    {
        if start.le(&end) {
            Some(Period { start, end })
        } else {
            None
        }
    }

    /// Tells whether the interval does not end before it starts.
    pub fn is_well_formed(&self) -> (r: bool)
        ensures
            r == self.well_formed(),
    {
        self.start.le(&self.end)
    }
}

/// A node of the task tree. A node owns its children; `parent_id` and the
/// tree metadata sent by the planning service are hints for display only.
#[derive(Debug, PartialEq)]
pub struct Task {
    pub id: String,
    pub title: String,
    pub task_type: PeriodType,
    pub time_period: Period,
    pub status: TaskStatus,
    pub tags: Vec<String>,
    pub icon: String,
    pub score: u32,
    pub priority: TaskPriority,
    pub parent_id: Option<String>,
    pub user_id: String,
    pub created_at: Timestamp,
    pub updated_at: Timestamp,
    pub has_children: bool,
    pub children_count: u32,
    pub tree_depth: u32,
    pub root_task_id: Option<String>,
    pub children: Vec<Task>,
}

/// The mathematical value of a [`Task`]: text as sequences of characters,
/// children as a sequence of values.
pub ghost struct TaskView {
    pub id: Seq<char>,
    pub title: Seq<char>,
    pub task_type: PeriodType,
    pub time_period: Period,
    pub status: TaskStatus,
    pub tags: Seq<Seq<char>>,
    pub icon: Seq<char>,
    pub score: u32,
    pub priority: TaskPriority,
    pub parent_id: Option<Seq<char>>,
    pub user_id: Seq<char>,
    pub created_at: Timestamp,
    pub updated_at: Timestamp,
    pub has_children: bool,
    pub children_count: u32,
    pub tree_depth: u32,
    pub root_task_id: Option<Seq<char>>,
    pub children: Seq<TaskView>,
}

/// The value of one node and of everything below it.
pub open spec fn task_view(task: Task) -> TaskView
    decreases task,
{
    TaskView {
        id: task.id@,
        title: task.title@,
        task_type: task.task_type,
        time_period: task.time_period,
        status: task.status,
        tags: task.tags.deep_view(),
        icon: task.icon@,
        score: task.score,
        priority: task.priority,
        parent_id: task.parent_id.deep_view(),
        user_id: task.user_id@,
        created_at: task.created_at,
        updated_at: task.updated_at,
        has_children: task.has_children,
        children_count: task.children_count,
        tree_depth: task.tree_depth,
        root_task_id: task.root_task_id.deep_view(),
        children: forest_view(task.children@),
    }
}

/// The values of the trees of a forest, in order.
pub open spec fn forest_view(tasks: Seq<Task>) -> Seq<TaskView>
    decreases tasks,
{
    if tasks.len() == 0 {
        Seq::empty()
    } else {
        forest_view(tasks.drop_last()).push(task_view(tasks.last()))
    }
}

impl View for Task {
    type V = TaskView;

    open spec fn view(&self) -> TaskView {
        task_view(*self)
    }
}

/// A forest's value has one entry per tree, the value of that tree.
pub proof fn lemma_forest_view(tasks: Seq<Task>)
    ensures
        forest_view(tasks).len() == tasks.len(),
        forall|i: int| 0 <= i < tasks.len() ==> #[trigger] forest_view(tasks)[i] == task_view(tasks[i]),
    decreases tasks.len(),
{
    if tasks.len() > 0 {
        lemma_forest_view(tasks.drop_last());
    }
}

impl Clone for Task {
    /// A copy of the node and of everything below it.
    fn clone(&self) -> (r: Task)
        ensures
            r@ == self@,
        decreases self,
    {
        let mut children: Vec<Task> = Vec::new();
        let mut i: usize = 0;
        while i < self.children.len()
            invariant
                i <= self.children.len(),
                children.len() == i,
                forall|j: int| 0 <= j < i ==> task_view(#[trigger] children@[j]) == task_view(self.children@[j]),
            decreases self.children.len() - i,
        {
            let child = self.children[i].clone();
            children.push(child);
            i += 1;
        }
        let tags = self.tags.clone();
        let r = Task {
            id: self.id.clone(),
            title: self.title.clone(),
            task_type: self.task_type,
            time_period: self.time_period,
            status: self.status,
            tags,
            icon: self.icon.clone(),
            score: self.score,
            priority: self.priority,
            parent_id: self.parent_id.clone(),
            user_id: self.user_id.clone(),
            created_at: self.created_at,
            updated_at: self.updated_at,
            has_children: self.has_children,
            children_count: self.children_count,
            tree_depth: self.tree_depth,
            root_task_id: self.root_task_id.clone(),
            children,
        };
        proof {
            lemma_forest_view(r.children@);
            lemma_forest_view(self.children@);
            assert(forest_view(r.children@) =~= forest_view(self.children@));
            assert(r.tags.deep_view() =~= self.tags.deep_view());
        }
        r
    }
}

/// The envelope in which the planning service wraps every answer.
#[derive(Debug, Clone, PartialEq)]
pub struct ApiResponse<T> {
    pub code: u32,
    pub message: String,
    pub success: bool,
    pub timestamp: u64,
    pub data: T,
}

/// The body of a request for the plan of one period.
#[derive(Debug, Clone, PartialEq)]
pub struct PlanRequest {
    pub period_type: String,
    pub start_date: Timestamp,
    pub end_date: Timestamp,
}

/// The plan of one period as the planning service reports it.
#[derive(Debug, Clone, PartialEq)]
pub struct PlanData {
    pub tasks: Vec<Task>,
    pub tasks_total: u32,
    pub journals: Vec<Journal>,
    pub journals_total: u32,
    pub plan_type: String,
    pub plan_period: Period,
    pub score_total: u32,
    pub group_stats: Vec<GroupStat>,
}

/// Totals of one group of tasks within a plan.
#[derive(Debug, Clone, PartialEq)]
pub struct GroupStat {
    pub group_key: String,
    pub task_count: u32,
    pub score_total: u32,
}

/// A journal entry attached to a plan.
#[derive(Debug, Clone, PartialEq)]
pub struct Journal {
    pub id: String,
    pub title: String,
    pub content: String,
    pub journal_type: String,
    pub time_period: Period,
    pub icon: String,
    pub created_at: Timestamp,
    pub updated_at: Timestamp,
    pub user_id: String,
}

} // verus!

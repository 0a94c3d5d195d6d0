//! Delegating tasks to child processes: the task description, how a task's
//! outcome is read, and what a `delegate_task` request asks for.
//!
//! Spawning processes, writing to them and waiting for them stay with the
//! caller, which hands the library what the process did.
use vstd::prelude::*;
use crate::json::{dec_int, i64_to_string, JsonValue};
use crate::llm::ToolDefinition;
use crate::module::{get_str_member, or_text, str_member, ModuleError};
use crate::schema::{choice_param, function_tool, object_schema, param, param_schema, plain_param, texts, tool_of, ParamSpec};
use crate::text::{append_str, concat2, concat3, dec, from_chars, push_range, to_chars, trim_spec, trim_str};

verus! {

/// How a task is carried out.
#[derive(Debug, Clone)]
pub enum DelegateMode {
    /// A child `tremolite` process (full agent reasoning).
    Tremolite,
    /// An external ACP tool (OpenCode and the like).
    AcpTool { command: String, args: Vec<String> },
    /// A shell command.
    Shell { command: String },
}

/// A task handed to a child.
#[derive(Debug, Clone)]
pub struct TaskContext {
    /// What to do.
    pub goal: String,
    /// What is known.
    pub context: String,
    pub workdir: String,
    /// SOUL or system-prompt fragment for the child agent.
    pub soul_fragment: String,
    pub expected_output: String,
    /// Longest run, in seconds.
    pub timeout_secs: u64,
}

impl TaskContext {
    /// A task with no working directory, fragment or expected output, and a
    /// 300-second limit.
    pub fn new(goal: &str, context: &str) -> (r: Self)
        ensures
            r.goal@ == goal@ && r.context@ == context@,
            r.workdir@ == Seq::<char>::empty() && r.soul_fragment@ == Seq::<char>::empty()
                && r.expected_output@ == Seq::<char>::empty(),
            r.timeout_secs == 300,
    {
        TaskContext {
            goal: goal.to_string(),
            context: context.to_string(),
            workdir: String::new(),
            soul_fragment: String::new(),
            expected_output: String::new(),
            timeout_secs: 300,
        }
    }

    /// The task with working directory `dir`.
    pub fn with_workdir(self, dir: &str) -> (r: Self)
        ensures
            r == (TaskContext { workdir: r.workdir, ..self }),
            r.workdir@ == dir@,
    {
        TaskContext { workdir: dir.to_string(), ..self }
    }

    /// The task with SOUL fragment `soul`.
    pub fn with_soul(self, soul: &str) -> (r: Self)
        ensures
            r == (TaskContext { soul_fragment: r.soul_fragment, ..self }),
            r.soul_fragment@ == soul@,
    {
        TaskContext { soul_fragment: soul.to_string(), ..self }
    }

    /// The task with a limit of `secs` seconds.
    pub fn with_timeout(self, secs: u64) -> (r: Self)
        ensures
            r == (TaskContext { timeout_secs: secs, ..self }),
    {
        TaskContext { timeout_secs: secs, ..self }
    }

    /// The task with expected output `expected`.
    pub fn with_expected(self, expected: &str) -> (r: Self)
        ensures
            r == (TaskContext { expected_output: r.expected_output, ..self }),
            r.expected_output@ == expected@,
    {
        TaskContext { expected_output: expected.to_string(), ..self }
    }
}

/// The state of a delegated task.
#[derive(Debug, Clone)]
pub enum TaskStatus {
    Pending,
    Running,
    Completed(String),
    Failed(String),
    Cancelled,
}

/// Whether a task has finished (completed, failed or been cancelled).
pub open spec fn status_done(s: TaskStatus) -> bool {
    s is Completed || s is Failed || s is Cancelled
}

/// Whether a task has finished.
pub fn is_done(s: &TaskStatus) -> (r: bool)
    ensures
        r == status_done(*s),
{
    match s {
        TaskStatus::Completed(_) | TaskStatus::Failed(_) | TaskStatus::Cancelled => true,
        _ => false,
    }
}

/// What waiting on a finished task answers: its result, or why it failed.
pub open spec fn wait_answer(s: TaskStatus) -> Option<Result<Seq<char>, Seq<char>>> {
    match s {
        TaskStatus::Completed(r) => Some(Ok(r@)),
        TaskStatus::Failed(e) => Some(Err("task failed: "@ + e@)),
        TaskStatus::Cancelled => Some(Err("task cancelled"@)),
        _ => None,
    }
}

/// What waiting on a task answers once it has finished; `None` while it
/// runs.
pub fn wait_result(s: &TaskStatus) -> (r: Option<Result<String, String>>)
    ensures
        match r {
            Some(Ok(v)) => wait_answer(*s) == Some(Ok::<Seq<char>, Seq<char>>(v@)),
            Some(Err(e)) => wait_answer(*s) == Some(Err::<Seq<char>, Seq<char>>(e@)),
            None => wait_answer(*s) is None,
        },
{
    match s {
        TaskStatus::Completed(r) => Some(Ok(r.clone())),
        TaskStatus::Failed(e) => Some(Err(concat2("task failed: ", e.as_str()))),
        TaskStatus::Cancelled => Some(Err("task cancelled".to_string())),
        _ => None,
    }
}

/// The session name of a child `tremolite`: `delegate-` and the first 20
/// characters of the goal.
pub open spec fn child_session_name(goal: Seq<char>) -> Seq<char> {
    "delegate-"@ + (if goal.len() <= 20 {
        goal
    } else {
        goal.take(20)
    })
}

/// The session name of a child `tremolite`.
pub fn delegate_session_name(goal: &str) -> (r: String)
    ensures
        r@ == child_session_name(goal@),
{
    let c = to_chars(goal);
    let n = if c.len() <= 20 {
        c.len()
    } else {
        20
    };
    let mut head = Vec::new();
    push_range(&mut head, c.as_slice(), 0, n);
    assert(c@.subrange(0, n as int) == if c@.len() <= 20 {
        c@
    } else {
        c@.take(20)
    });
    let mut out = "delegate-".to_string();
    crate::text::push_chars(&mut out, head.as_slice());
    out
}

/// The prompt written to an ACP tool.
pub open spec fn acp_prompt_text(ctx: TaskContext) -> Seq<char> {
    "Task: "@ + ctx.goal@ + "\n\nContext:\n"@ + ctx.context@ + "\n\nWorkdir: "@ + ctx.workdir@
        + "\nExpected: "@ + ctx.expected_output@
}

/// The prompt written to an ACP tool.
pub fn acp_prompt(ctx: &TaskContext) -> (r: String)
    ensures
        r@ == acp_prompt_text(*ctx),
{
    let mut out = concat3("Task: ", ctx.goal.as_str(), "\n\nContext:\n");
    append_str(&mut out, ctx.context.as_str());
    append_str(&mut out, "\n\nWorkdir: ");
    append_str(&mut out, ctx.workdir.as_str());
    append_str(&mut out, "\nExpected: ");
    append_str(&mut out, ctx.expected_output.as_str());
    out
}

/// The exit code as printed: the code, or -1 without one.
pub open spec fn code_text(code: Option<i32>) -> Seq<char> {
    match code {
        Some(c) => dec_int(c as int),
        None => dec_int(-1),
    }
}

fn code_string(code: Option<i32>) -> (r: String)
    ensures
        r@ == code_text(code),
{
    match code {
        Some(c) => i64_to_string(c as i64),
        None => i64_to_string(-1),
    }
}

/// Whether `s` is the status of a shell task that exited as given: its
/// output on success; otherwise the exit code and the trimmed error output
/// (standard output when standard error is empty).
pub open spec fn shell_status_spec(
    success: bool,
    code: Option<i32>,
    stdout: Seq<char>,
    stderr: Seq<char>,
    s: TaskStatus,
) -> bool {
    if success {
        s matches TaskStatus::Completed(o) && o@ == stdout
    } else {
        s matches TaskStatus::Failed(m) && m@ == "exit="@ + code_text(code) + " msg="@ + trim_spec(
            if stderr.len() == 0 {
                stdout
            } else {
                stderr
            },
        )
    }
}

/// The status of a shell task from how its process ended.
pub fn shell_status(success: bool, code: Option<i32>, stdout: &str, stderr: &str) -> (r: TaskStatus)
    ensures
        shell_status_spec(success, code, stdout@, stderr@, r),
{
    if success {
        TaskStatus::Completed(stdout.to_string())
    } else {
        let err = if stderr.is_empty() {
            stdout
        } else {
            stderr
        };
        let mut m = concat2("exit=", code_string(code).as_str());
        append_str(&mut m, " msg=");
        append_str(&mut m, trim_str(err).as_str());
        TaskStatus::Failed(m)
    }
}

/// The status of a child `tremolite` from its exit and its result line.
pub fn tremolite_status(success: bool, line: &str) -> (r: TaskStatus)
    ensures
        success ==> (r matches TaskStatus::Completed(o) && o@ == trim_spec(line@)),
        !success ==> (r matches TaskStatus::Failed(e) && e@ == trim_spec(line@)),
{
    if success {
        TaskStatus::Completed(trim_str(line))
    } else {
        TaskStatus::Failed(trim_str(line))
    }
}

/// The exit code of a process exit, when there is one.
pub open spec fn exit_code(exit: Option<(bool, Option<i32>)>) -> Option<i32> {
    match exit {
        Some((_, c)) => c,
        None => None,
    }
}

/// Whether an ACP task failed: it printed nothing and exited unsuccessfully.
pub open spec fn acp_failed(output: Seq<char>, exit: Option<(bool, Option<i32>)>) -> bool {
    match exit {
        Some((ok, _)) => output.len() == 0 && !ok,
        None => false,
    }
}

/// The status of an ACP task from its output and its exit: a failure when
/// it printed nothing and exited unsuccessfully, else its trimmed output.
pub fn acp_status(command: &str, output: &str, exit: Option<(bool, Option<i32>)>) -> (r: TaskStatus)
    ensures
        acp_failed(output@, exit) ==> (r matches TaskStatus::Failed(
            m,
        ) && m@ == command@ + " exited with code "@ + code_text(exit_code(exit))),
        !acp_failed(output@, exit) ==> (r matches TaskStatus::Completed(
            o,
        ) && o@ == trim_spec(output@)),
{
    let failed = match exit {
        Some((ok, _)) => output.is_empty() && !ok,
        None => false,
    };
    if failed {
        let code = match exit {
            Some((_, c)) => c,
            None => None,
        };
        let mut m = concat2(command, " exited with code ");
        append_str(&mut m, code_string(code).as_str());
        TaskStatus::Failed(m)
    } else {
        TaskStatus::Completed(trim_str(output))
    }
}

/// What a `delegate_task` request asks for, from its arguments (`None` when
/// they did not parse, which counts as no arguments): the mode and the task,
/// or a refusal of an empty goal.
pub open spec fn delegate_request_spec(
    args: Option<Seq<(String, JsonValue)>>,
    default_timeout: u64,
    r: Result<(DelegateMode, TaskContext), ModuleError>,
) -> bool {
    let m = match args {
        Some(m) => m,
        None => Seq::empty(),
    };
    let goal = or_text(str_member(m, "goal"@), Seq::empty());
    let mode = or_text(str_member(m, "mode"@), "shell"@);
    if goal.len() == 0 {
        r matches Err(ModuleError::ToolExecutionFailed(e)) && e@ == "goal 不能为空"@
    } else {
        r matches Ok((d, ctx)) && ctx.goal@ == goal && ctx.context@ == or_text(
            str_member(m, "context"@),
            Seq::empty(),
        ) && ctx.workdir@ == or_text(str_member(m, "workdir"@), "."@) && ctx.timeout_secs
            == match crate::json::obj_get(m, "timeout_secs"@) {
            Some(v) => match crate::json::json_u64(v) {
                Some(t) => t,
                None => default_timeout,
            },
            None => default_timeout,
        } && ctx.soul_fragment@.len() == 0 && ctx.expected_output@.len() == 0 && if mode
            == "tremolite"@ {
            d is Tremolite
        } else if mode == "opencode"@ {
            d matches DelegateMode::AcpTool { command, args } && command@ == or_text(
                str_member(m, "command"@),
                "opencode"@,
            ) && args@.len() == 2 && args@[0]@ == "--acp"@ && args@[1]@ == "--stdio"@
        } else {
            d matches DelegateMode::Shell { command } && command@ == goal
        }
    }
}

/// Reads a `delegate_task` request.
pub fn delegate_request(args: &Option<Vec<(String, JsonValue)>>, default_timeout: u64) -> (r: Result<(DelegateMode, TaskContext), ModuleError>)
    ensures
        delegate_request_spec(
            match args {
                Some(m) => Some(m@),
                None => None,
            },
            default_timeout,
            r,
        ),
{
    let empty: Vec<(String, JsonValue)> = Vec::new();
    assert(empty@ =~= Seq::<(String, JsonValue)>::empty());
    match args {
        Some(m) => task_request_from(m, default_timeout),
        None => task_request_from(&empty, default_timeout),
    }
}

/// Reads a `delegate_task` request from its arguments' members.
fn task_request_from(m: &Vec<(String, JsonValue)>, default_timeout: u64) -> (r: Result<(DelegateMode, TaskContext), ModuleError>)
    ensures
        delegate_request_spec(Some(m@), default_timeout, r),
{
    proof {
        reveal_strlit("");
        assert(""@ =~= Seq::<char>::empty());
    }
    let goal = match get_str_member(m, "goal") {
        Some(g) => g,
        None => "",
    };
    if goal.is_empty() {
        return Err(ModuleError::ToolExecutionFailed("goal 不能为空".to_string()));
    }
    let context = match get_str_member(m, "context") {
        Some(c) => c,
        None => "",
    };
    let mode_str = match get_str_member(m, "mode") {
        Some(s) => s,
        None => "shell",
    };
    let command = match get_str_member(m, "command") {
        Some(c) => c,
        None => "opencode",
    };
    let workdir = match get_str_member(m, "workdir") {
        Some(w) => w,
        None => ".",
    };
    let timeout = match crate::json::object_get(m, "timeout_secs") {
        Some(v) => match v.as_u64() {
            Some(t) => t,
            None => default_timeout,
        },
        None => default_timeout,
    };
    let mode = if crate::text::str_eq(mode_str, "tremolite") {
        DelegateMode::Tremolite
    } else if crate::text::str_eq(mode_str, "opencode") {
        let mut a = Vec::new();
        a.push("--acp".to_string());
        a.push("--stdio".to_string());
        DelegateMode::AcpTool { command: command.to_string(), args: a }
    } else {
        DelegateMode::Shell { command: goal.to_string() }
    };
    let ctx = TaskContext::new(goal, context).with_workdir(workdir).with_timeout(timeout);
    Ok((mode, ctx))
}

/// A delegated task: how it runs, what it is, and how far it got. The child
/// process and its timing are kept by the caller.
#[derive(Debug)]
pub struct TaskHandle {
    pub mode: DelegateMode,
    pub context: TaskContext,
    pub status: TaskStatus,
}

impl TaskHandle {
    /// Whether the task has finished.
    pub fn is_done(&self) -> (r: bool)
        ensures
            r == status_done(self.status),
    {
        is_done(&self.status)
    }

    /// The task's result, once it completed.
    pub fn result(&self) -> (r: Option<&str>)
        ensures
            match self.status {
                TaskStatus::Completed(s) => r matches Some(t) && t@ == s@,
                _ => r is None,
            },
    {
        match &self.status {
            TaskStatus::Completed(s) => Some(s.as_str()),
            _ => None,
        }
    }
}

/// Creates delegated tasks.
#[derive(Debug)]
pub struct DelegationEngine;

impl DelegationEngine {
    /// A task that has not started.
    pub fn prepare(mode: DelegateMode, context: TaskContext) -> (r: TaskHandle)
        ensures
            r.mode == mode,
            r.context == context,
            r.status is Pending,
    {
        TaskHandle { mode, context, status: TaskStatus::Pending }
    }
}

// ─── The delegation module ───────────────────────

/// How long to wait for a task: its limit, but at least 10 seconds.
pub fn wait_limit(timeout_secs: u64) -> (r: u64)
    ensures
        r == (if timeout_secs >= 10 {
            timeout_secs
        } else {
            10
        }),
{
    if timeout_secs >= 10 {
        timeout_secs
    } else {
        10
    }
}

/// The first `n` characters of `s`.
pub open spec fn preview(s: Seq<char>, n: nat) -> Seq<char> {
    if s.len() <= n {
        s
    } else {
        s.take(n as int)
    }
}

/// A completed task's line in the summary: its id and the first 80
/// characters of its result.
pub open spec fn summary_line(id: Seq<char>, result: Seq<char>) -> Seq<char> {
    "["@ + id + "] "@ + preview(result, 80) + "..."@
}

/// The tasks of `a` that have not finished, in order.
pub open spec fn unfinished(a: Seq<(String, TaskHandle)>) -> Seq<(String, TaskHandle)>
    decreases a.len(),
{
    if a.len() == 0 {
        Seq::empty()
    } else if status_done(a.last().1.status) {
        unfinished(a.drop_last())
    } else {
        unfinished(a.drop_last()).push(a.last())
    }
}

/// The results `m` after each completed task of `a`, in order, has its
/// result kept under its id.
pub open spec fn with_completed(m: Map<Seq<char>, String>, a: Seq<(String, TaskHandle)>) -> Map<Seq<char>, String>
    decreases a.len(),
{
    if a.len() == 0 {
        m
    } else {
        let prev = with_completed(m, a.drop_last());
        match a.last().1.status {
            TaskStatus::Completed(res) => prev.insert(a.last().0@, res),
            _ => prev,
        }
    }
}

/// The module that delegates tasks: it numbers tasks and child sessions and
/// keeps the results of completed tasks. Running the tasks stays with the
/// caller.
pub struct DelegationModule {
    active: Vec<(String, TaskHandle)>,
    completed: Vec<(String, String)>,
    task_seq: u64,
    session_seq: u64,
    default_timeout: u64,
    /// Whether the engine has started (its `Startup` event arrived).
    started: bool,
}

impl DelegationModule {
    /// Whether the engine has started, so that child sessions can be made.
    pub closed spec fn is_started(&self) -> bool {
        self.started
    }

    /// The results of completed tasks by id, in completion order.
    pub closed spec fn results(&self) -> Seq<(String, String)> {
        self.completed@
    }

    pub closed spec fn active_count(&self) -> nat {
        self.active@.len()
    }

    /// The tasks still active, by id.
    pub closed spec fn active_tasks(&self) -> Seq<(String, TaskHandle)> {
        self.active@
    }

    pub closed spec fn tasks_started(&self) -> u64 {
        self.task_seq
    }

    pub closed spec fn sessions_started(&self) -> u64 {
        self.session_seq
    }

    pub closed spec fn timeout(&self) -> u64 {
        self.default_timeout
    }

    /// Task ids are distinct.
    #[verifier::type_invariant]
    spec fn inv(&self) -> bool {
        crate::kv::keys_distinct(self.completed@) && crate::kv::keys_distinct(self.active@)
    }

    /// No tasks yet, and a 300-second default limit.
    pub fn new() -> (r: Self)
        ensures
            r.results().len() == 0,
            r.active_count() == 0,
            r.active_tasks() == Seq::<(String, TaskHandle)>::empty(),
            r.tasks_started() == 0,
            r.sessions_started() == 0,
            r.timeout() == 300,
            !r.is_started(),
    {
        DelegationModule {
            active: Vec::new(),
            completed: Vec::new(),
            task_seq: 0,
            session_seq: 0,
            default_timeout: 300,
            started: false,
        }
    }

    /// The same module with a default limit of `secs` seconds.
    pub fn with_timeout(self, secs: u64) -> (r: Self)
        ensures
            r.timeout() == secs,
            r.results() == self.results(),
            r.active_count() == self.active_count(),
            r.tasks_started() == self.tasks_started(),
            r.sessions_started() == self.sessions_started(),
            r.is_started() == self.is_started(),
    {
        proof {
            use_type_invariant(&self);
        }
        DelegationModule { default_timeout: secs, ..self }
    }

    /// How many tasks have been numbered.
    pub fn task_count(&self) -> (r: u64)
        ensures
            r == self.tasks_started(),
    {
        self.task_seq
    }

    /// How many child sessions have been numbered.
    pub fn session_count(&self) -> (r: u64)
        ensures
            r == self.sessions_started(),
    {
        self.session_seq
    }

    pub fn default_timeout(&self) -> (r: u64)
        ensures
            r == self.timeout(),
    {
        self.default_timeout
    }

    /// The id of the next task: `task-<n>`.
    pub fn next_task_id(&mut self) -> (r: String)
        requires
            old(self).tasks_started() < u64::MAX,
        ensures
            final(self).tasks_started() == old(self).tasks_started() + 1,
            r@ == "task-"@ + dec(final(self).tasks_started() as nat),
            final(self).results() == old(self).results(),
            final(self).active_count() == old(self).active_count(),
            final(self).sessions_started() == old(self).sessions_started(),
            final(self).timeout() == old(self).timeout(),
            final(self).is_started() == old(self).is_started(),
    {
        proof {
            use_type_invariant(&*self);
        }
        self.task_seq = self.task_seq + 1;
        concat2("task-", crate::text::u64_to_string(self.task_seq).as_str())
    }

    /// The id of the next child session of `parent`: `<parent>:delegate-<n>`.
    pub fn next_session_id(&mut self, parent: &str) -> (r: String)
        requires
            old(self).sessions_started() < u64::MAX,
        ensures
            final(self).sessions_started() == old(self).sessions_started() + 1,
            r@ == parent@ + ":delegate-"@ + dec(final(self).sessions_started() as nat),
            final(self).results() == old(self).results(),
            final(self).active_count() == old(self).active_count(),
            final(self).tasks_started() == old(self).tasks_started(),
            final(self).timeout() == old(self).timeout(),
            final(self).is_started() == old(self).is_started(),
    {
        proof {
            use_type_invariant(&*self);
        }
        self.session_seq = self.session_seq + 1;
        let mut s = concat2(parent, ":delegate-");
        append_str(&mut s, crate::text::u64_to_string(self.session_seq).as_str());
        s
    }

    /// Records the outcome of a task just run: it gets the next id and, when
    /// it completed, its result is kept under that id.
    pub fn finish_task(&mut self, outcome: Result<String, String>) -> (r: Result<String, String>)
        requires
            old(self).tasks_started() < u64::MAX,
        ensures
            final(self).tasks_started() == old(self).tasks_started() + 1,
            final(self).active_count() == old(self).active_count(),
            match outcome {
                Ok(res) => {
                    let id = "task-"@ + dec(final(self).tasks_started() as nat);
                    &&& r matches Ok(t) && t@ == "[task:"@ + id + "] 完成: "@ + res@
                    &&& crate::kv::kv_map(final(self).results()) == crate::kv::kv_map(old(self).results()).insert(id, res)
                },
                Err(e) => r == Err::<String, String>(e) && final(self).results() == old(self).results(),
            },
    {
        let id = self.next_task_id();
        match outcome {
            Ok(res) => {
                let text = {
                    let mut t = concat3("[task:", id.as_str(), "] 完成: ");
                    append_str(&mut t, res.as_str());
                    t
                };
                proof {
                    use_type_invariant(&*self);
                }
                let mut completed: Vec<(String, String)> = Vec::new();
                std::mem::swap(&mut completed, &mut self.completed);
                let ghost before = completed@;
                proof {
                    crate::kv::lemma_kv_map(before);
                }
                match crate::kv::kv_find(&completed, id.as_str()) {
                    Some(p) => {
                        let key = completed[p].0.clone();
                        completed.set(p, (key, res));
                        proof {
                            let v = completed@[p as int].1;
                            assert(completed@ =~= before.update(p as int, (before[p as int].0, v)));
                            crate::kv::lemma_kv_update(before, p as int, v);
                        }
                    },
                    None => {
                        let ghost k = id;
                        let ghost v = res;
                        completed.push((id, res));
                        proof {
                            crate::kv::lemma_kv_push(before, k, v);
                        }
                    },
                }
                self.completed = completed;
                Ok(text)
            },
            Err(e) => Err(e),
        }
    }

    /// Moves finished tasks out of the active list, keeping the results of
    /// those that completed.
    pub fn cleanup_completed(&mut self)
        ensures
            final(self).active_tasks() == unfinished(old(self).active_tasks()),
            crate::kv::kv_map(final(self).results()) == with_completed(
                crate::kv::kv_map(old(self).results()),
                old(self).active_tasks(),
            ),
            final(self).active_count() <= old(self).active_count(),
            final(self).tasks_started() == old(self).tasks_started(),
            final(self).sessions_started() == old(self).sessions_started(),
            final(self).timeout() == old(self).timeout(),
            final(self).is_started() == old(self).is_started(),
    {
        proof {
            use_type_invariant(&*self);
        }
        let mut active: Vec<(String, TaskHandle)> = Vec::new();
        std::mem::swap(&mut active, &mut self.active);
        let mut completed: Vec<(String, String)> = Vec::new();
        std::mem::swap(&mut completed, &mut self.completed);
        let ghost all = active@;
        let ghost m0 = crate::kv::kv_map(completed@);
        let ghost mut j: int = 0;
        let mut i: usize = 0;
        assert(all.take(0) =~= Seq::<(String, TaskHandle)>::empty());
        assert(active@ =~= unfinished(all.take(0)) + all.skip(0));
        while i < active.len()
            invariant
                crate::kv::keys_distinct(completed@),
                crate::kv::keys_distinct(active@),
                0 <= j <= all.len(),
                active@ == unfinished(all.take(j)) + all.skip(j),
                i == unfinished(all.take(j)).len(),
                crate::kv::kv_map(completed@) == with_completed(m0, all.take(j)),
                unfinished(all.take(j)).len() <= j,
                self.task_seq == old(self).task_seq,
                self.session_seq == old(self).session_seq,
                self.default_timeout == old(self).default_timeout,
                self.started == old(self).started,
            decreases active@.len() - i,
        {
            let ghost u = unfinished(all.take(j));
            assert(active@[i as int] == all[j]);
            assert(all.take(j + 1).drop_last() =~= all.take(j));
            assert(all.take(j + 1).last() == all[j]);
            if active[i].1.is_done() {
                if let TaskStatus::Completed(res) = &active[i].1.status {
                    let id = active[i].0.clone();
                    let value = res.clone();
                    let ghost before = completed@;
                    proof {
                        crate::kv::lemma_kv_map(before);
                    }
                    match crate::kv::kv_find(&completed, id.as_str()) {
                        Some(p) => {
                            let key = completed[p].0.clone();
                            completed.set(p, (key, value));
                            proof {
                                let v = completed@[p as int].1;
                                assert(completed@ =~= before.update(p as int, (before[p as int].0, v)));
                                crate::kv::lemma_kv_update(before, p as int, v);
                            }
                        },
                        None => {
                            let ghost k = id;
                            let ghost v = value;
                            completed.push((id, value));
                            proof {
                                crate::kv::lemma_kv_push(before, k, v);
                            }
                        },
                    }
                }
                let ghost act = active@;
                active.remove(i);
                proof {
                    assert forall|a: int, b: int| 0 <= a < b < active@.len() implies #[trigger] active@[a].0@
                        != #[trigger] active@[b].0@ by {
                        let a2 = if a < i { a } else { a + 1 };
                        let b2 = if b < i { b } else { b + 1 };
                        assert(active@[a] == act[a2]);
                        assert(active@[b] == act[b2]);
                    }
                    assert(active@ =~= u + all.skip(j + 1));
                    j = j + 1;
                }
            } else {
                proof {
                    assert(u.push(all[j]) + all.skip(j + 1) =~= u + all.skip(j));
                    j = j + 1;
                }
                i += 1;
            }
        }
        proof {
            assert(j == all.len());
            assert(all.take(j) =~= all);
            assert(active@ =~= unfinished(all));
        }
        self.active = active;
        self.completed = completed;
    }

    /// One line per completed task: its id and the start of its result.
    pub fn list_completed_summary(&self) -> (r: Vec<String>)
        ensures
            r@.len() == self.results().len(),
            forall|i: int|
                0 <= i < r@.len() ==> #[trigger] r@[i]@ == summary_line(
                    self.results()[i].0@,
                    self.results()[i].1@,
                ),
    {
        let mut out: Vec<String> = Vec::new();
        let mut i: usize = 0;
        while i < self.completed.len()
            invariant
                i <= self.completed@.len(),
                out@.len() == i,
                forall|k: int|
                    0 <= k < i ==> #[trigger] out@[k]@ == summary_line(
                        self.completed@[k].0@,
                        self.completed@[k].1@,
                    ),
            decreases self.completed@.len() - i,
        {
            let chars = to_chars(self.completed[i].1.as_str());
            let n = if chars.len() <= 80 {
                chars.len()
            } else {
                80
            };
            let mut p: Vec<char> = Vec::new();
            push_range(&mut p, chars.as_slice(), 0, n);
            assert(p@ =~= preview(self.completed@[i as int].1@, 80));
            let mut line = concat3("[", self.completed[i].0.as_str(), "] ");
            crate::text::push_chars(&mut line, p.as_slice());
            append_str(&mut line, "...");
            out.push(line);
            i += 1;
        }
        out
    }

    /// The answer to `list_delegations`, after finished tasks are moved
    /// out.
    pub fn list_reply(&mut self) -> (r: String)
        ensures
            final(self).tasks_started() == old(self).tasks_started(),
            final(self).sessions_started() == old(self).sessions_started(),
            final(self).timeout() == old(self).timeout(),
            final(self).is_started() == old(self).is_started(),
            final(self).active_tasks() == unfinished(old(self).active_tasks()),
            crate::kv::kv_map(final(self).results()) == with_completed(
                crate::kv::kv_map(old(self).results()),
                old(self).active_tasks(),
            ),
            final(self).results().len() == 0 ==> r@ == "暂无已完成委派任务~"@,
            final(self).results().len() > 0 ==> r@ == crate::text::join_spec(
                final(self).results().map_values(|p: (String, String)| summary_line(p.0@, p.1@)),
                "\n"@,
            ),
    {
        self.cleanup_completed();
        let lines = self.list_completed_summary();
        if lines.len() == 0 {
            "暂无已完成委派任务~".to_string()
        } else {
            proof {
                crate::text::lemma_join_texts_spec(lines@, "\n"@);
                assert(lines@.map_values(|s: String| s@) =~= self.results().map_values(
                    |p: (String, String)| summary_line(p.0@, p.1@),
                ));
            }
            crate::text::join_strings(&lines, "\n")
        }
    }

    /// The status-bar text: the completed and active counts, when there are
    /// any.
    pub fn display_status(&self) -> (r: Option<String>)
        ensures
            self.results().len() == 0 && self.active_count() == 0 ==> r is None,
            self.results().len() > 0 || self.active_count() > 0 ==> (r matches Some(t) && t@
                == "委派: "@ + dec(self.results().len()) + "完成 "@ + dec(self.active_count()) + "活跃"@),
    {
        let total = self.completed.len();
        let active = self.active.len();
        if total > 0 || active > 0 {
            let mut s = concat3("委派: ", crate::text::u64_to_string(total as u64).as_str(), "完成 ");
            append_str(&mut s, crate::text::u64_to_string(active as u64).as_str());
            append_str(&mut s, "活跃");
            Some(s)
        } else {
            None
        }
    }

    pub fn id(&self) -> (r: &'static str)
        ensures
            r@ == "delegation"@,
    {
        "delegation"
    }

    pub fn name(&self) -> (r: &'static str)
        ensures
            r@ == "任务委派"@,
    {
        "任务委派"
    }

    pub fn version(&self) -> (r: &'static str)
        ensures
            r@ == "0.2.0"@,
    {
        "0.2.0"
    }

    /// The capabilities the module provides.
    pub fn provides(&self) -> (r: Vec<String>)
        ensures
            r@.len() == 3,
            r@[0]@ == "delegation.spawn"@,
            r@[1]@ == "delegation.list"@,
            r@[2]@ == "delegation.session"@,
    {
        let mut v = Vec::new();
        v.push("delegation.spawn".to_string());
        v.push("delegation.list".to_string());
        v.push("delegation.session".to_string());
        v
    }
}

// ─── Tool schemas ────────────────────────────────

/// The allowed delegation modes.
pub open spec fn mode_choices() -> Seq<Seq<char>> {
    seq!["tremolite"@, "opencode"@, "shell"@]
}

/// The parameters of `delegate_task`.
pub open spec fn task_params() -> Seq<ParamSpec> {
    seq![
        plain_param("goal"@, "string"@, "任务目标"@),
        plain_param("context"@, "string"@, "背景信息"@),
        ParamSpec { name: "mode"@, ty: "string"@, desc: "委派模式"@, choices: mode_choices() },
        plain_param("command"@, "string"@, "仅 opencode 模式：CLI 名称"@),
        plain_param("workdir"@, "string"@, "工作目录（可选）"@),
        plain_param("timeout_secs"@, "integer"@, "超时秒数（可选，默认300）"@),
    ]
}

/// The parameters of `delegate_session`.
pub open spec fn session_params() -> Seq<ParamSpec> {
    seq![
        plain_param("goal"@, "string"@, "委派给子会话的任务目标"@),
        plain_param("context"@, "string"@, "传递给子会话的上下文（如父会话的对话摘录、配置等）"@),
        ParamSpec { name: "mode"@, ty: "string"@, desc: "子会话执行模式"@, choices: mode_choices() },
        plain_param("timeout_secs"@, "integer"@, "超时秒数（可选，默认300）"@),
    ]
}

fn mode_param(desc: &str) -> (r: JsonValue)
    ensures
        param_schema(r, "string"@, desc@, mode_choices()),
{
    let mut c: Vec<String> = Vec::new();
    c.push("tremolite".to_string());
    c.push("opencode".to_string());
    c.push("shell".to_string());
    assert(texts(c@) =~= mode_choices());
    choice_param("string", c, desc)
}

fn goal_mode() -> (r: Vec<String>)
    ensures
        texts(r@) == seq!["goal"@, "mode"@],
{
    let mut v: Vec<String> = Vec::new();
    v.push("goal".to_string());
    v.push("mode".to_string());
    assert(texts(v@) =~= seq!["goal"@, "mode"@]);
    v
}

fn delegate_task_tool() -> (r: ToolDefinition)
    ensures
        tool_of(
            r,
            "delegate_task"@,
            "把任务委派给子进程或外部工具执行。支持三种模式：tremolite（子agent）、opencode（编程工具）、shell（命令）。适用于编程、搜索、批量处理等耗时任务。"@,
            task_params(),
            Some(seq!["goal"@, "mode"@]),
        ),
{
    let mut props: Vec<(String, JsonValue)> = Vec::new();
    props.push(("goal".to_string(), param("string", "任务目标")));
    props.push(("context".to_string(), param("string", "背景信息")));
    props.push(("mode".to_string(), mode_param("委派模式")));
    props.push(("command".to_string(), param("string", "仅 opencode 模式：CLI 名称")));
    props.push(("workdir".to_string(), param("string", "工作目录（可选）")));
    props.push(("timeout_secs".to_string(), param("integer", "超时秒数（可选，默认300）")));
    let ghost ps = props@;
    let schema = object_schema(props, Some(goal_mode()));
    assert forall|i: int| 0 <= i < task_params().len() implies #[trigger] ps[i].0@ == task_params()[i].name
        && param_schema(ps[i].1, task_params()[i].ty, task_params()[i].desc, task_params()[i].choices) by {
    }
    function_tool(
        "delegate_task",
        "把任务委派给子进程或外部工具执行。支持三种模式：tremolite（子agent）、opencode（编程工具）、shell（命令）。适用于编程、搜索、批量处理等耗时任务。",
        schema,
    )
}

fn delegate_session_tool() -> (r: ToolDefinition)
    ensures
        tool_of(
            r,
            "delegate_session"@,
            "创建子会话执行任务。子会话有自己的 session_id 和 L1 历史记录，可被跨 session 工具（list_active_sessions、peek_session）查看。任务完成后自动结果写入子会话并冷却。"@,
            session_params(),
            Some(seq!["goal"@, "mode"@]),
        ),
{
    let mut props: Vec<(String, JsonValue)> = Vec::new();
    props.push(("goal".to_string(), param("string", "委派给子会话的任务目标")));
    props.push(("context".to_string(), param("string", "传递给子会话的上下文（如父会话的对话摘录、配置等）")));
    props.push(("mode".to_string(), mode_param("子会话执行模式")));
    props.push(("timeout_secs".to_string(), param("integer", "超时秒数（可选，默认300）")));
    let ghost ps = props@;
    let schema = object_schema(props, Some(goal_mode()));
    assert forall|i: int| 0 <= i < session_params().len() implies #[trigger] ps[i].0@ == session_params()[i].name
        && param_schema(ps[i].1, session_params()[i].ty, session_params()[i].desc, session_params()[i].choices) by {
    }
    function_tool(
        "delegate_session",
        "创建子会话执行任务。子会话有自己的 session_id 和 L1 历史记录，可被跨 session 工具（list_active_sessions、peek_session）查看。任务完成后自动结果写入子会话并冷却。",
        schema,
    )
}

fn list_delegations_tool() -> (r: ToolDefinition)
    ensures
        tool_of(r, "list_delegations"@, "查看所有已完成委派任务的结果摘要"@, Seq::empty(), Some(Seq::empty())),
{
    let schema = object_schema(Vec::new(), Some(Vec::new()));
    assert(texts(Seq::<String>::empty()) =~= Seq::<Seq<char>>::empty());
    function_tool("list_delegations", "查看所有已完成委派任务的结果摘要", schema)
}

impl DelegationModule {
    /// The module's three tools: `delegate_task`, `delegate_session` and
    /// `list_delegations`.
    pub fn tool_definitions(&self) -> (r: Vec<ToolDefinition>)
        ensures
            r@.len() == 3,
            tool_of(
                r@[0],
                "delegate_task"@,
                "把任务委派给子进程或外部工具执行。支持三种模式：tremolite（子agent）、opencode（编程工具）、shell（命令）。适用于编程、搜索、批量处理等耗时任务。"@,
                task_params(),
                Some(seq!["goal"@, "mode"@]),
            ),
            tool_of(
                r@[1],
                "delegate_session"@,
                "创建子会话执行任务。子会话有自己的 session_id 和 L1 历史记录，可被跨 session 工具（list_active_sessions、peek_session）查看。任务完成后自动结果写入子会话并冷却。"@,
                session_params(),
                Some(seq!["goal"@, "mode"@]),
            ),
            tool_of(r@[2], "list_delegations"@, "查看所有已完成委派任务的结果摘要"@, Seq::empty(), Some(Seq::empty())),
    {
        let mut v: Vec<ToolDefinition> = Vec::new();
        v.push(delegate_task_tool());
        v.push(delegate_session_tool());
        v.push(list_delegations_tool());
        v
    }
}

// ─── Child sessions ──────────────────────────────

/// What a `delegate_session` request asks for.
#[derive(Debug)]
pub struct SessionDelegation {
    pub goal: String,
    pub context: String,
    pub mode: String,
    pub timeout_secs: u64,
}

/// What a `delegate_session` request asks for, from its parsed arguments.
pub open spec fn session_request_spec(
    args: Result<Seq<(String, JsonValue)>, Seq<char>>,
    default_timeout: u64,
    r: Result<SessionDelegation, ModuleError>,
) -> bool {
    match args {
        Err(e) => r matches Err(ModuleError::ToolExecutionFailed(m)) && m@ == e,
        Ok(m) => match str_member(m, "goal"@) {
            None => r matches Err(ModuleError::ToolExecutionFailed(e)) && e@ == "goal 不能为空"@,
            Some(goal) => r matches Ok(d) && d.goal@ == goal && d.context@ == or_text(
                str_member(m, "context"@),
                Seq::empty(),
            ) && d.mode@ == or_text(str_member(m, "mode"@), "shell"@) && d.timeout_secs
                == match crate::json::obj_get(m, "timeout_secs"@) {
                Some(v) => match crate::json::json_u64(v) {
                    Some(t) => t,
                    None => default_timeout,
                },
                None => default_timeout,
            },
        },
    }
}

/// Reads a `delegate_session` request: the arguments must parse and name
/// a string `goal`; `context` defaults to empty, `mode` to `shell`, the
/// limit to the module's.
pub fn session_request(args: &crate::module::ToolArgs, default_timeout: u64) -> (r: Result<SessionDelegation, ModuleError>)
    ensures
        session_request_spec(crate::json::args_view(*args), default_timeout, r),
{
    let m = match args {
        Err(e) => return Err(ModuleError::ToolExecutionFailed(e.clone())),
        Ok(m) => m,
    };
    let goal = match get_str_member(m, "goal") {
        Some(g) => g,
        None => return Err(ModuleError::ToolExecutionFailed("goal 不能为空".to_string())),
    };
    proof {
        reveal_strlit("");
        assert(""@ =~= Seq::<char>::empty());
    }
    let context = match get_str_member(m, "context") {
        Some(c) => c,
        None => "",
    };
    let mode = match get_str_member(m, "mode") {
        Some(s) => s,
        None => "shell",
    };
    let timeout = match crate::json::object_get(m, "timeout_secs") {
        Some(v) => match v.as_u64() {
            Some(t) => t,
            None => default_timeout,
        },
        None => default_timeout,
    };
    Ok(SessionDelegation { goal: goal.to_string(), context: context.to_string(), mode: mode.to_string(), timeout_secs: timeout })
}

/// How a child session's task runs: `tremolite` through the scheduler,
/// `opencode` as an ACP tool, anything else as the goal run by the shell.
pub fn session_mode(mode: &str, goal: &str) -> (r: DelegateMode)
    ensures
        mode@ == "tremolite"@ ==> r is Tremolite,
        mode@ == "opencode"@ ==> (r matches DelegateMode::AcpTool { command, args } && command@
            == "opencode"@ && args@.len() == 2 && args@[0]@ == "--acp"@ && args@[1]@ == "--stdio"@),
        mode@ != "tremolite"@ && mode@ != "opencode"@ ==> (r matches DelegateMode::Shell { command }
            && command@ == goal@),
{
    proof {
        reveal_strlit("tremolite");
        reveal_strlit("opencode");
        assert("tremolite"@.len() != "opencode"@.len());
    }
    if crate::text::str_eq(mode, "tremolite") {
        DelegateMode::Tremolite
    } else if crate::text::str_eq(mode, "opencode") {
        let mut a = Vec::new();
        a.push("--acp".to_string());
        a.push("--stdio".to_string());
        DelegateMode::AcpTool { command: "opencode".to_string(), args: a }
    } else {
        DelegateMode::Shell { command: goal.to_string() }
    }
}

/// The parent of a child session: the first known session, or `root`.
pub fn parent_session(first_known: Option<&str>) -> (r: String)
    ensures
        r@ == (match first_known {
            Some(s) => if s@.len() > 0 {
                s@
            } else {
                "root"@
            },
            None => "root"@,
        }),
{
    match first_known {
        Some(s) => if s.unicode_len() > 0 {
            s.to_string()
        } else {
            "root".to_string()
        },
        None => "root".to_string(),
    }
}

/// The notes a child session starts with: its goal, and its context when
/// there is one.
pub fn session_start_notes(goal: &str, context: &str) -> (r: Vec<String>)
    ensures
        r@.len() == (if context@.len() > 0 {
            2nat
        } else {
            1nat
        }),
        r@[0]@ == "[delegate_start] 目标: "@ + goal@,
        context@.len() > 0 ==> r@[1]@ == "[delegate_context] "@ + context@,
{
    let mut v = Vec::new();
    v.push(concat2("[delegate_start] 目标: ", goal));
    if context.unicode_len() > 0 {
        v.push(concat2("[delegate_context] ", context));
    }
    v
}

/// The note a child session ends with.
pub fn session_result_note(result: &str) -> (r: String)
    ensures
        r@ == "[delegate_result] "@ + result@,
{
    concat2("[delegate_result] ", result)
}

/// The scheduler task that runs a child session through the engine.
pub fn session_task(sub_session: &str, goal: &str, context: &str) -> (r: crate::scheduler::SessionTask)
    ensures
        r.session_id@ == sub_session@,
        r.input@ == "[delegate] 目标: "@ + goal@ + "\n"@ + context@,
        r.channel@ == "delegation"@,
        r.sender@ == sub_session@,
{
    let mut input = concat3("[delegate] 目标: ", goal, "\n");
    append_str(&mut input, context);
    crate::scheduler::SessionTask {
        session_id: sub_session.to_string(),
        input,
        channel: "delegation".to_string(),
        sender: sub_session.to_string(),
    }
}

/// The result recorded when a child session's task failed.
pub fn session_failure(reason: &str) -> (r: String)
    ensures
        r@ == "[delegate_error] "@ + reason@,
{
    concat2("[delegate_error] ", reason)
}

/// The answer to `delegate_session` once the child session is done.
pub fn session_reply(sub_session: &str, goal: &str, result: &str) -> (r: String)
    ensures
        r@ == "子会话 "@ + sub_session@ + " 已完成。\n任务目标："@ + goal@ + "\n结果："@ + result@
            + "\n\n可用 peek_session 查看完整上下文呢~"@,
{
    let mut s = concat3("子会话 ", sub_session, " 已完成。\n任务目标：");
    append_str(&mut s, goal);
    append_str(&mut s, "\n结果：");
    append_str(&mut s, result);
    append_str(&mut s, "\n\n可用 peek_session 查看完整上下文呢~");
    s
}

/// Whether `delegate_session`'s arguments parsed and name a string `goal`.
pub open spec fn session_args_ok(args: Result<Seq<(String, JsonValue)>, Seq<char>>) -> bool {
    match args {
        Ok(m) => str_member(m, "goal"@) is Some,
        Err(_) => false,
    }
}

// ─── Tool calls ──────────────────────────────────

/// What the caller does for a tool call of the delegation module.
#[derive(Debug)]
pub enum DelegationStep {
    /// Run the delegated work; its outcome goes to
    /// [`DelegationModule::finish_task`].
    RunTask { mode: DelegateMode, context: TaskContext },
    /// Run this child session.
    RunSession(SessionDelegation),
    /// Answer with this text.
    Reply(String),
}

/// The arguments of `delegate_task`: arguments that did not parse count as
/// none.
pub open spec fn task_args(args: Result<Seq<(String, JsonValue)>, Seq<char>>) -> Option<Seq<(String, JsonValue)>> {
    match args {
        Ok(m) => Some(m),
        Err(_) => None,
    }
}

/// What a tool call of the delegation module decides, from the module
/// `before` to the module `after`, for the tool `name` and its parsed
/// arguments.
pub open spec fn tool_step_spec(
    before: DelegationModule,
    after: DelegationModule,
    name: Seq<char>,
    args: Result<Seq<(String, JsonValue)>, Seq<char>>,
    r: Result<DelegationStep, ModuleError>,
) -> bool {
    &&& after.tasks_started() == before.tasks_started()
    &&& after.timeout() == before.timeout()
    &&& after.is_started() == before.is_started()
    &&& name != "list_delegations"@ ==> after.results() == before.results() && after.active_count()
        == before.active_count() && after.active_tasks() == before.active_tasks()
    &&& name == "delegate_task"@ ==> match r {
        Ok(DelegationStep::RunTask { mode, context }) => delegate_request_spec(
            task_args(args),
            before.timeout(),
            Ok((mode, context)),
        ),
        Err(e) => delegate_request_spec(task_args(args), before.timeout(), Err(e)),
        _ => false,
    }
    &&& name == "delegate_session"@ && !session_args_ok(args) ==> (r matches Err(e) && session_request_spec(
        args,
        before.timeout(),
        Err(e),
    ))
    &&& name == "delegate_session"@ && session_args_ok(args) && !before.is_started() ==> (r matches Err(
        ModuleError::ToolExecutionFailed(m),
    ) && m@ == "engine 尚未就绪，无法创建子会话"@)
    &&& name == "delegate_session"@ && session_args_ok(args) && before.is_started() ==> (r matches Ok(
        DelegationStep::RunSession(d),
    ) && session_request_spec(args, before.timeout(), Ok(d)))
    &&& name == "list_delegations"@ ==> (after.results().len() == 0 <==> crate::kv::kv_map(after.results()).dom()
        == Set::<Seq<char>>::empty())
    &&& name == "list_delegations"@ ==> after.active_tasks() == unfinished(before.active_tasks())
        && crate::kv::kv_map(after.results()) == with_completed(
        crate::kv::kv_map(before.results()),
        before.active_tasks(),
    )
    &&& name == "list_delegations"@ ==> (r matches Ok(DelegationStep::Reply(t)) && (after.results().len()
        == 0 ==> t@ == "暂无已完成委派任务~"@) && (after.results().len() > 0 ==> t@ == crate::text::join_spec(
        after.results().map_values(|p: (String, String)| summary_line(p.0@, p.1@)),
        "\n"@,
    )))
    &&& name != "delegate_task"@ && name != "delegate_session"@ && name != "list_delegations"@ ==> (r matches Err(
        ModuleError::ToolNotFound(n),
    ) && n@ == name)
}

impl DelegationModule {
    /// Decides a tool call: `delegate_task` and `delegate_session` read
    /// their requests (the module's default limit filling in a missing
    /// one), `list_delegations` answers with the completed tasks, and any
    /// other name is an unknown tool.
    pub fn tool_step(&mut self, name: &str, args: &crate::module::ToolArgs) -> (r: Result<DelegationStep, ModuleError>)
        ensures
            tool_step_spec(*old(self), *final(self), name@, crate::json::args_view(*args), r),
    {
        proof {
            reveal_strlit("delegate_task");
            reveal_strlit("delegate_session");
            reveal_strlit("list_delegations");
            assert("delegate_task"@ != "delegate_session"@) by {
                assert("delegate_task"@.len() != "delegate_session"@.len());
            }
            assert("delegate_task"@ != "list_delegations"@) by {
                assert("delegate_task"@[0] != "list_delegations"@[0]);
            }
            assert("delegate_session"@ != "list_delegations"@) by {
                assert("delegate_session"@[0] != "list_delegations"@[0]);
            }
        }
        if crate::text::str_eq(name, "delegate_task") {
            let empty: Vec<(String, JsonValue)> = Vec::new();
            assert(empty@ =~= Seq::<(String, JsonValue)>::empty());
            let req = match args {
                Ok(m) => task_request_from(m, self.default_timeout),
                Err(_) => task_request_from(&empty, self.default_timeout),
            };
            match req {
                Ok((mode, context)) => Ok(DelegationStep::RunTask { mode, context }),
                Err(e) => Err(e),
            }
        } else if crate::text::str_eq(name, "delegate_session") {
            match session_request(args, self.default_timeout) {
                Ok(d) => if self.started {
                    Ok(DelegationStep::RunSession(d))
                } else {
                    Err(ModuleError::ToolExecutionFailed("engine 尚未就绪，无法创建子会话".to_string()))
                },
                Err(e) => Err(e),
            }
        } else if crate::text::str_eq(name, "list_delegations") {
            let reply = self.list_reply();
            proof {
                crate::kv::lemma_kv_map_empty(self.results());
            }
            Ok(DelegationStep::Reply(reply))
        } else {
            Err(ModuleError::ToolNotFound(name.to_string()))
        }
    }
}

impl DelegationModule {
    /// Takes a tool call as the model makes it, with its arguments as JSON
    /// text: parses them with `serde_json` and decides the call as
    /// [`DelegationModule::tool_step`] does. The work a step asks for is
    /// run by the caller.
    pub fn execute_tool(&mut self, name: &str, args: &str) -> (r: Result<DelegationStep, ModuleError>)
        ensures
            tool_step_spec(*old(self), *final(self), name@, crate::json::parsed_tool_args(args@), r),
    {
        let parsed = crate::json::parse_tool_args(args);
        self.tool_step(name, &parsed)
    }
}

impl DelegationModule {
    /// Takes an engine event: startup makes child sessions possible, at
    /// shutdown finished tasks are moved out of the active list; every event
    /// passes.
    pub fn on_event(&mut self, event: &crate::registry::Event) -> (r: crate::module::EventResponse)
        ensures
            r is Pass,
            final(self).tasks_started() == old(self).tasks_started(),
            final(self).sessions_started() == old(self).sessions_started(),
            final(self).timeout() == old(self).timeout(),
            final(self).is_started() == (old(self).is_started() || event is Startup),
            !(event is Shutdown) ==> final(self).results() == old(self).results()
                && final(self).active_tasks() == old(self).active_tasks() && final(self).active_count()
                == old(self).active_count(),
            event is Shutdown ==> final(self).active_tasks() == unfinished(old(self).active_tasks())
                && crate::kv::kv_map(final(self).results()) == with_completed(
                crate::kv::kv_map(old(self).results()),
                old(self).active_tasks(),
            ),
    {
        match event {
            crate::registry::Event::Startup => {
                proof {
                    use_type_invariant(&*self);
                }
                self.started = true;
            },
            crate::registry::Event::Shutdown => {
                self.cleanup_completed();
            },
            _ => {},
        }
        crate::module::EventResponse::Pass
    }
}

} // verus!

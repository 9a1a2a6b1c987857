//! Running scripts: the table of running processes (keyed by run identifier)
//! and the planning of `run`, `install` and stop requests.

use vstd::prelude::*;

use crate::ids::{run_id, run_id_from};
use crate::logs::{
    is_valid_package_manager, is_valid_script, pm_program, pm_program_spec,
    supported_package_manager,
};
use crate::outside::script_pattern_matches;
use crate::paths::{display_path, path_input_error, path_to_string, validate_path_input, Os};
use crate::text::{concat, decimal, owned, str_eq, with_decimal};

verus! {

/// Largest number of scripts that may run at the same time.
pub const MAX_RUNNING_PROCESSES: usize = 20;

/// What the front end is told about a start or install request.
pub struct StartResult {
    pub success: bool,
    pub message: String,
    /// The run identifier (`{pathId}@{script}`).
    pub project_id: String,
}

/// Why the table refused a run.
#[derive(Clone, Copy, Debug, PartialEq, Eq, Structural)]
pub enum EnqueueError {
    /// `MAX_RUNNING_PROCESSES` runs are already in the table.
    Full,
    /// A run with the same identifier is in the table.
    AlreadyRunning,
}

/// A run identifier occurs in the list of runs.
pub open spec fn has_run<T>(runs: Seq<(Seq<char>, T)>, id: Seq<char>) -> bool {
    exists|i: int| 0 <= i < runs.len() && #[trigger] runs[i].0 == id
}

/// No identifier occurs twice and there are at most `MAX_RUNNING_PROCESSES`
/// runs.
pub open spec fn runs_well_formed<T>(runs: Seq<(Seq<char>, T)>) -> bool {
    &&& runs.len() <= MAX_RUNNING_PROCESSES
    &&& forall|i: int, j: int|
        0 <= i < runs.len() && 0 <= j < runs.len() && i != j ==> #[trigger] runs[i].0
            != #[trigger] runs[j].0
}

/// The runs without the one with identifier `id`.
pub open spec fn without_run<T>(runs: Seq<(Seq<char>, T)>, id: Seq<char>) -> Seq<(Seq<char>, T)> {
    runs.filter(other_run(id))
}

/// Holds of the runs whose identifier is not `id`.
pub open spec fn other_run<T>(id: Seq<char>) -> spec_fn((Seq<char>, T)) -> bool {
    |e: (Seq<char>, T)| e.0 != id
}

proof fn lemma_without_step<T>(runs: Seq<(Seq<char>, T)>, id: Seq<char>)
    requires
        runs.len() > 0,
    ensures
        without_run(runs, id) == if runs.last().0 != id {
            without_run(runs.drop_last(), id).push(runs.last())
        } else {
            without_run(runs.drop_last(), id)
        },
{
    runs.drop_last().lemma_filter_push(runs.last(), other_run::<T>(id));
    assert(runs.drop_last().push(runs.last()) =~= runs);
}

proof fn lemma_without_empty<T>(runs: Seq<(Seq<char>, T)>, id: Seq<char>)
    requires
        runs.len() == 0,
    ensures
        without_run(runs, id) == runs,
{
    runs.lemma_filter_len(other_run::<T>(id));
    assert(without_run(runs, id) =~= runs);
}

/// What `enqueue` answers for a table and a new identifier.
pub open spec fn enqueue_verdict<T>(runs: Seq<(Seq<char>, T)>, id: Seq<char>) -> Option<EnqueueError> {
    if runs.len() >= MAX_RUNNING_PROCESSES {
        Some(EnqueueError::Full)
    } else if has_run(runs, id) {
        Some(EnqueueError::AlreadyRunning)
    } else {
        None
    }
}

/// The running processes, each under its run identifier, oldest first.
pub struct ProcessTable<T> {
    entries: Vec<(String, T)>,
}

impl<T> ProcessTable<T> {
    /// The runs in the table: identifier and process, oldest first.
    pub closed spec fn runs(&self) -> Seq<(Seq<char>, T)> {
        self.entries@.map_values(|e: (String, T)| (e.0@, e.1))
    }

    #[verifier::type_invariant]
    closed spec fn inv(&self) -> bool {
        runs_well_formed(self.runs())
    }

    /// An empty table.
    pub fn new() -> (t: ProcessTable<T>)
        ensures
            t.runs() == Seq::<(Seq<char>, T)>::empty(),
    {
        let t = ProcessTable { entries: Vec::new() };
        assert(t.runs() =~= Seq::<(Seq<char>, T)>::empty());
        t
    }

    /// Number of runs in the table.
    pub fn len(&self) -> (n: usize)
        ensures
            n == self.runs().len(),
            runs_well_formed(self.runs()),
    {
        proof {
            use_type_invariant(self);
        }
        self.entries.len()
    }

    fn index_of(&self, id: &str) -> (r: Option<usize>)
        ensures
            match r {
                Some(i) => i < self.runs().len() && self.runs()[i as int].0 == id@,
                None => !has_run(self.runs(), id@),
            },
    {
        let mut i: usize = 0;
        while i < self.entries.len()
            invariant
                i <= self.entries.len(),
                forall|k: int| 0 <= k < i ==> self.runs()[k].0 != id@,
            decreases self.entries.len() - i,
        {
            if str_eq(self.entries[i].0.as_str(), id) {
                return Some(i);
            }
            i = i + 1;
        }
        None
    }

    /// Whether a run with this identifier is in the table.
    pub fn contains(&self, id: &str) -> (r: bool)
        ensures
            r == has_run(self.runs(), id@),
    {
        self.index_of(id).is_some()
    }

    /// Whether a new run with this identifier would be accepted, without
    /// enqueuing it.
    pub fn check_enqueue(&self, id: &str) -> (r: Result<(), EnqueueError>)
        ensures
            match enqueue_verdict(self.runs(), id@) {
                Some(e) => r == Err::<(), EnqueueError>(e),
                None => r is Ok,
            },
    {
        if self.entries.len() >= MAX_RUNNING_PROCESSES {
            return Err(EnqueueError::Full);
        }
        if self.contains(id) {
            return Err(EnqueueError::AlreadyRunning);
        }
        Ok(())
    }

    /// Checks and records a new run in one step: refused (and the process
    /// handed back) when the table is full or already holds the identifier;
    /// otherwise appended.
    pub fn enqueue(&mut self, id: String, process: T) -> (r: Result<(), (EnqueueError, T)>)
        ensures
            match enqueue_verdict(old(self).runs(), id@) {
                Some(e) => r == Err::<(), (EnqueueError, T)>((e, process)) && final(self).runs()
                    == old(self).runs(),
                None => r is Ok && final(self).runs() == old(self).runs().push((id@, process)),
            },
            runs_well_formed(final(self).runs()),
    {
        proof {
            use_type_invariant(&*self);
        }
        match self.check_enqueue(id.as_str()) {
            Err(e) => Err((e, process)),
            Ok(()) => {
                let ghost before = self.runs();
                let ghost idv = id@;
                let mut es: Vec<(String, T)> = Vec::new();
                std::mem::swap(&mut es, &mut self.entries);
                es.push((id, process));
                assert(es@.map_values(|e: (String, T)| (e.0@, e.1)) =~= before.push((idv, process)));
                assert(runs_well_formed(es@.map_values(|e: (String, T)| (e.0@, e.1)))) by {
                    let rs = es@.map_values(|e: (String, T)| (e.0@, e.1));
                    assert forall|i: int, j: int|
                        0 <= i < rs.len() && 0 <= j < rs.len() && i != j
                        implies #[trigger] rs[i].0 != #[trigger] rs[j].0 by {
                        if i < before.len() && j < before.len() {
                        } else if i < before.len() {
                            assert(rs[i] == before[i]);
                        } else {
                            assert(rs[j] == before[j]);
                        }
                    }
                }
                self.entries = es;
                Ok(())
            },
        }
    }

    /// Takes the run with this identifier out of the table and gives its
    /// process; `None` (and the table unchanged) when there is none.
    pub fn remove(&mut self, id: &str) -> (r: Option<T>)
        ensures
            has_run(old(self).runs(), id@) ==> (r matches Some(p) && exists|i: int|
                0 <= i < old(self).runs().len() && #[trigger] old(self).runs()[i] == (id@, p)),
            !has_run(old(self).runs(), id@) ==> r is None,
            final(self).runs() == without_run(old(self).runs(), id@),
            runs_well_formed(final(self).runs()),
    {
        proof {
            use_type_invariant(&*self);
        }
        let ghost before = self.runs();
        match self.index_of(id) {
            None => {
                proof {
                    lemma_without_absent(before, id@);
                }
                None
            },
            Some(i) => {
                let ghost entry = before[i as int];
                proof {
                    lemma_without_present(before, id@, i as int);
                }
                let mut es: Vec<(String, T)> = Vec::new();
                std::mem::swap(&mut es, &mut self.entries);
                let (_, p) = es.remove(i);
                assert(es@.map_values(|e: (String, T)| (e.0@, e.1)) =~= before.remove(i as int));
                self.entries = es;
                assert(before[i as int] == (id@, p));
                Some(p)
            },
        }
    }

    /// Takes every run out of the table, oldest first.
    pub fn drain(&mut self) -> (all: Vec<(String, T)>)
        ensures
            all@.map_values(|e: (String, T)| (e.0@, e.1)) == old(self).runs(),
            final(self).runs() == Seq::<(Seq<char>, T)>::empty(),
    {
        let mut taken: Vec<(String, T)> = Vec::new();
        std::mem::swap(&mut taken, &mut self.entries);
        assert(self.runs() =~= Seq::<(Seq<char>, T)>::empty());
        taken
    }
}

proof fn lemma_without_absent<T>(runs: Seq<(Seq<char>, T)>, id: Seq<char>)
    requires
        !has_run(runs, id),
    ensures
        without_run(runs, id) == runs,
    decreases runs.len(),
{
    if runs.len() > 0 {
        let init = runs.drop_last();
        lemma_without_step(runs, id);
        assert(!has_run(init, id)) by {
            if has_run(init, id) {
                let k = choose|k: int| 0 <= k < init.len() && #[trigger] init[k].0 == id;
                assert(runs[k].0 == id);
            }
        }
        lemma_without_absent(init, id);
        assert(runs.last().0 != id) by {
            assert(runs[runs.len() - 1].0 != id);
        }
        assert(runs =~= init.push(runs.last()));
    } else {
        lemma_without_empty(runs, id);
    }
}

proof fn lemma_without_present<T>(runs: Seq<(Seq<char>, T)>, id: Seq<char>, i: int)
    requires
        runs_well_formed(runs),
        0 <= i < runs.len(),
        runs[i].0 == id,
    ensures
        without_run(runs, id) == runs.remove(i),
    decreases runs.len(),
{
    let init = runs.drop_last();
    lemma_without_step(runs, id);
    if i == runs.len() - 1 {
        assert(!has_run(init, id)) by {
            if has_run(init, id) {
                let k = choose|k: int| 0 <= k < init.len() && #[trigger] init[k].0 == id;
                assert(runs[k].0 == runs[i].0);
            }
        }
        lemma_without_absent(init, id);
        assert(runs.remove(i) =~= init);
    } else {
        assert(runs_well_formed(init)) by {
            assert forall|a: int, b: int|
                0 <= a < init.len() && 0 <= b < init.len() && a != b implies #[trigger] init[a].0
                != #[trigger] init[b].0 by {
                assert(init[a] == runs[a]);
                assert(init[b] == runs[b]);
            }
        }
        lemma_without_present(init, id, i);
        assert(runs.last().0 != id) by {
            assert(runs[runs.len() - 1].0 != runs[i].0);
        }
        assert(runs =~= init.push(runs.last()));
        assert(runs.remove(i) =~= init.remove(i).push(runs.last()));
    }
}

/// Enqueuing a new run and then stopping it leaves the table as it was.
pub proof fn lemma_enqueue_then_remove<T>(runs: Seq<(Seq<char>, T)>, id: Seq<char>, process: T)
    requires
        runs_well_formed(runs),
        enqueue_verdict(runs, id) is None,
    ensures
        without_run(runs.push((id, process)), id) == runs,
{
    let all = runs.push((id, process));
    assert(all.drop_last() =~= runs);
    lemma_without_step(all, id);
    lemma_without_absent(runs, id);
}

/// A run that the table refuses leaves it unchanged, and the table never
/// holds two runs with one identifier: enqueuing an identifier that is
/// already there is always refused.
pub proof fn lemma_duplicate_refused<T>(runs: Seq<(Seq<char>, T)>, id: Seq<char>)
    requires
        has_run(runs, id),
    ensures
        enqueue_verdict(runs, id) is Some,
{
}

// ----- planning of requests -----

/// How to launch a run: program, arguments and working directory.
pub struct LaunchPlan {
    pub run_id: String,
    pub program: String,
    pub args: Vec<String>,
    pub workdir: String,
}

pub open spec fn plan_view(p: LaunchPlan) -> (Seq<char>, Seq<char>, Seq<Seq<char>>, Seq<char>) {
    (p.run_id@, p.program@, p.args@.map_values(|a: String| a@), p.workdir@)
}

pub open spec fn msg_bad_script() -> Seq<char> {
    "非法脚本名：仅允许字母、数字、下划线、连字符和冒号"@
}

pub open spec fn msg_bad_pm() -> Seq<char> {
    "不支持的包管理器"@
}

/// A failed result for a run.
pub open spec fn failure(r: StartResult, message: Seq<char>, id: Seq<char>) -> bool {
    !r.success && r.message@ == message && r.project_id@ == id
}

/// The arguments that run a script with a package manager: `yarn <script>`,
/// otherwise `<pm> run <script>`.
pub open spec fn run_args(pm: Seq<char>, script: Seq<char>) -> Seq<Seq<char>> {
    if pm == "yarn"@ {
        seq![script]
    } else {
        seq!["run"@, script]
    }
}

/// The script run is the one asked for, as the last argument: yarn takes it
/// directly, npm and pnpm after `run`.
pub proof fn lemma_run_args_run_the_script(pm: Seq<char>, script: Seq<char>)
    ensures
        run_args(pm, script).len() > 0,
        run_args(pm, script).last() == script,
        pm == "yarn"@ ==> run_args(pm, script) == seq![script],
        pm != "yarn"@ ==> run_args(pm, script) == seq!["run"@, script],
{
}

fn fail(message: String, id: String) -> (r: StartResult)
    ensures
        failure(r, message@, id@),
{
    StartResult { success: false, message, project_id: id }
}

/// Plans `start_project`: the directory check (its result `dir`, see
/// `validate_dir_path`), the script name, then the package manager, in this
/// order; the first that fails gives the failed result.  Otherwise the plan
/// runs `<pm> run <script>` (`yarn <script>`) in the canonical directory.
pub fn plan_start_project(
    path: &str,
    script: &str,
    package_manager: &str,
    dir: &Result<String, String>,
    os: Os,
) -> (r: Result<LaunchPlan, StartResult>)
    ensures
        match *dir {
            Err(m) => r matches Err(f) && failure(f, m@, run_id(path@, script@)),
            Ok(c) => if !script_pattern_matches(script@) {
                r matches Err(f) && failure(f, msg_bad_script(), run_id(path@, script@))
            } else if !supported_package_manager(package_manager@) {
                r matches Err(f) && failure(f, msg_bad_pm(), run_id(path@, script@))
            } else {
                r matches Ok(p) && plan_view(p) == (
                    run_id(path@, script@),
                    pm_program_spec(package_manager@, os),
                    run_args(package_manager@, script@),
                    display_path(c@, os),
                )
            },
        },
{
    let id = run_id_from(path, script);
    let canonical = match dir {
        Err(m) => return Err(fail(owned(m.as_str()), id)),
        Ok(c) => c,
    };
    if !is_valid_script(script) {
        return Err(fail(owned("非法脚本名：仅允许字母、数字、下划线、连字符和冒号"), id));
    }
    if !is_valid_package_manager(package_manager) {
        return Err(fail(owned("不支持的包管理器"), id));
    }
    let program = owned(pm_program(package_manager, os));
    let mut args: Vec<String> = Vec::new();
    if !str_eq(package_manager, "yarn") {
        args.push(owned("run"));
    }
    args.push(owned(script));
    assert(args@.map_values(|a: String| a@) =~= run_args(package_manager@, script@));
    let workdir = path_to_string(canonical.as_str(), os);
    Ok(LaunchPlan { run_id: id, program, args, workdir })
}

/// Plans `install_project`: the directory check, then the package manager;
/// otherwise the plan runs `<pm> install` in the canonical directory under
/// the run identifier of the script `install`.
pub fn plan_install_project(
    path: &str,
    package_manager: &str,
    dir: &Result<String, String>,
    os: Os,
) -> (r: Result<LaunchPlan, StartResult>)
    ensures
        match *dir {
            Err(m) => r matches Err(f) && failure(f, m@, run_id(path@, "install"@)),
            Ok(c) => if !supported_package_manager(package_manager@) {
                r matches Err(f) && failure(f, msg_bad_pm(), run_id(path@, "install"@))
            } else {
                r matches Ok(p) && plan_view(p) == (
                    run_id(path@, "install"@),
                    pm_program_spec(package_manager@, os),
                    seq!["install"@],
                    display_path(c@, os),
                )
            },
        },
{
    let id = run_id_from(path, "install");
    let canonical = match dir {
        Err(m) => return Err(fail(owned(m.as_str()), id)),
        Ok(c) => c,
    };
    if !is_valid_package_manager(package_manager) {
        return Err(fail(owned("不支持的包管理器"), id));
    }
    let program = owned(pm_program(package_manager, os));
    let mut args: Vec<String> = Vec::new();
    args.push(owned("install"));
    assert(args@.map_values(|a: String| a@) =~= seq!["install"@]);
    let workdir = path_to_string(canonical.as_str(), os);
    Ok(LaunchPlan { run_id: id, program, args, workdir })
}

pub open spec fn msg_too_many() -> Seq<char> {
    "同时运行进程数不能超过 "@ + decimal(MAX_RUNNING_PROCESSES as nat)
}

/// The answer to a start request that the table refused.
pub fn start_refused(run_id: &str, script: &str, reason: EnqueueError) -> (r: StartResult)
    ensures
        failure(
            r,
            match reason {
                EnqueueError::Full => msg_too_many(),
                EnqueueError::AlreadyRunning => "脚本 "@ + script@ + " 已在运行中"@,
            },
            run_id@,
        ),
{
    let message = match reason {
        EnqueueError::Full => with_decimal("同时运行进程数不能超过 ", MAX_RUNNING_PROCESSES as u128),
        EnqueueError::AlreadyRunning => {
            let a = concat("脚本 ", script);
            concat(a.as_str(), " 已在运行中")
        },
    };
    fail(message, owned(run_id))
}

/// The answer to an install request that the table refused.
pub fn install_refused(run_id: &str, reason: EnqueueError) -> (r: StartResult)
    ensures
        failure(
            r,
            match reason {
                EnqueueError::Full => msg_too_many(),
                EnqueueError::AlreadyRunning => "依赖安装已在进行中"@,
            },
            run_id@,
        ),
{
    let message = match reason {
        EnqueueError::Full => with_decimal("同时运行进程数不能超过 ", MAX_RUNNING_PROCESSES as u128),
        EnqueueError::AlreadyRunning => owned("依赖安装已在进行中"),
    };
    fail(message, owned(run_id))
}

/// The answer when the process could not be started; `error` is the text of
/// the operating system's error.
pub fn spawn_failed(run_id: &str, error: &str, install: bool) -> (r: StartResult)
    ensures
        failure(
            r,
            if install {
                "安装启动失败: "@ + error@
            } else {
                "启动失败: "@ + error@
            },
            run_id@,
        ),
{
    let message = if install {
        concat("安装启动失败: ", error)
    } else {
        concat("启动失败: ", error)
    };
    fail(message, owned(run_id))
}

/// The answer when the output pipes of the new process are missing
/// (standard output first, then standard error).
pub fn pipes_unavailable(run_id: &str, stdout_missing: bool) -> (r: StartResult)
    ensures
        failure(
            r,
            if stdout_missing {
                "无法获取标准输出"@
            } else {
                "无法获取错误输出"@
            },
            run_id@,
        ),
{
    let message = if stdout_missing {
        owned("无法获取标准输出")
    } else {
        owned("无法获取错误输出")
    };
    fail(message, owned(run_id))
}

/// The answer when the run has started.
pub fn start_succeeded(run_id: &str, install: bool) -> (r: StartResult)
    ensures
        r.success,
        r.project_id@ == run_id@,
        r.message@ == if install {
            "依赖安装已开始"@
        } else {
            "项目已启动"@
        },
{
    let message = if install {
        owned("依赖安装已开始")
    } else {
        owned("项目已启动")
    };
    StartResult { success: true, message, project_id: owned(run_id) }
}

pub open spec fn msg_bad_script_short() -> Seq<char> {
    "非法脚本名"@
}

/// Checks a stop request and gives the run identifier to stop: the path text
/// must pass `validate_path_input`, and the script must be `install` or a
/// valid script name.
pub fn stop_target(path: &str, script: &str) -> (r: Result<String, String>)
    ensures
        match path_input_error(path) {
            Some(m) => r matches Err(e) && e@ == m,
            None => if script@ != "install"@ && !script_pattern_matches(script@) {
                r matches Err(e) && e@ == msg_bad_script_short()
            } else {
                r matches Ok(id) && id@ == run_id(path@, script@)
            },
        },
{
    match validate_path_input(path) {
        Err(e) => return Err(e),
        Ok(()) => {},
    }
    if !str_eq(script, "install") && !is_valid_script(script) {
        return Err(owned("非法脚本名"));
    }
    Ok(run_id_from(path, script))
}

} // verus!

//! Which task the build tool performs.

use crate::text::same_text;
use vstd::prelude::*;

verus! {

/// A task of the build tool.
#[derive(Debug, Clone, Copy, PartialEq, Eq, Structural)]
pub enum Task {
    /// Print help.
    Help,
    /// Compile the shaders.
    CompileShaders,
    /// Install the software renderer.
    InstallWarp,
    /// Download the shader sources.
    Vendor,
    /// None of these.
    Unknown,
}

/// The task with the given name, or help where there is no name.
pub open spec fn task_named(subcommand: Seq<char>) -> Task {
    if subcommand.len() == 0 {
        Task::Help
    } else if subcommand == "compile-shaders"@ {
        Task::CompileShaders
    } else if subcommand == "install-warp"@ {
        Task::InstallWarp
    } else if subcommand == "vendor"@ {
        Task::Vendor
    } else {
        Task::Unknown
    }
}

/// The task with the given name, or help where there is no name.
pub fn select_task(subcommand: &str) -> (result: Task)
    ensures
        result == task_named(subcommand@),
{
    proof {
        reveal_strlit("");
        reveal_strlit("compile-shaders");
        reveal_strlit("install-warp");
        reveal_strlit("vendor");
        assert(subcommand@.len() == 0 ==> subcommand@ =~= ""@);
    }
    if same_text(subcommand, "") {
        Task::Help
    } else if same_text(subcommand, "compile-shaders") {
        Task::CompileShaders
    } else if same_text(subcommand, "install-warp") {
        Task::InstallWarp
    } else if same_text(subcommand, "vendor") {
        Task::Vendor
    } else {
        Task::Unknown
    }
}

/// Every task has one name, help has none, and every other text names no task.
pub proof fn law_task_names(subcommand: Seq<char>)
    ensures
        task_named(subcommand) == Task::Help <==> subcommand.len() == 0,
        task_named(subcommand) == Task::CompileShaders <==> subcommand == "compile-shaders"@,
        task_named(subcommand) == Task::InstallWarp <==> subcommand == "install-warp"@,
        task_named(subcommand) == Task::Vendor <==> subcommand == "vendor"@,
{
    reveal_strlit("compile-shaders");
    reveal_strlit("install-warp");
    reveal_strlit("vendor");
}

} // verus!

//! The project's own tasks: which one a command line asks for, what it runs, and
//! when it stops.

use vstd::prelude::*;

verus! {

/// What a command line asks for.
#[derive(Clone, Copy, Debug, PartialEq, Eq, Structural)]
pub enum Task {
    /// Says which tasks there are.
    Usage,
    /// Writes the C header.
    GenHeader,
    /// Builds the library for Android.
    BuildAndroid,
    /// Runs the benchmarks.
    Bench,
    /// A task that there is not.
    Unknown,
}

/// The task that a word names.
pub open spec fn task_named(word: Seq<char>) -> Task {
    if word == "gen-header"@ {
        Task::GenHeader
    } else if word == "build-android"@ {
        Task::BuildAndroid
    } else if word == "bench"@ {
        Task::Bench
    } else {
        Task::Unknown
    }
}

/// The task that a command line asks for: its second word names it.
pub fn task(args: &[String]) -> (r: Task)
    ensures
        r == if args@.len() < 2 {
            Task::Usage
        } else {
            task_named(args@[1]@)
        },
{
    if args.len() < 2 {
        return Task::Usage;
    }
    let word = &args[1];
    if word.eq(&"gen-header".to_string()) {
        Task::GenHeader
    } else if word.eq(&"build-android".to_string()) {
        Task::BuildAndroid
    } else if word.eq(&"bench".to_string()) {
        Task::Bench
    } else {
        Task::Unknown
    }
}

/// How many targets the library is built for.
pub const TARGETS: usize = 3;

/// A target that the library is built for: 32-bit and 64-bit ARM, and 64-bit x86.
pub open spec fn target_name(i: int) -> Seq<char> {
    if i == 0 {
        "armv7-linux-androideabi"@
    } else if i == 1 {
        "aarch64-linux-android"@
    } else {
        "x86_64-linux-android"@
    }
}

/// A target that the library is built for.
pub fn target(i: usize) -> (r: &'static str)
    requires
        i < TARGETS,
    ensures
        r@ == target_name(i as int),
{
    if i == 0 {
        "armv7-linux-androideabi"
    } else if i == 1 {
        "aarch64-linux-android"
    } else {
        "x86_64-linux-android"
    }
}

/// What cargo is told to build the library for a target.
pub fn build_args(target: &'static str) -> (r: [&'static str; 7])
    ensures
        r@.len() == 7,
        r@[0]@ == "ndk"@,
        r@[1]@ == "-t"@,
        r@[2]@ == target@,
        r@[3]@ == "build"@,
        r@[4]@ == "-p"@,
        r@[5]@ == "hw-ffi"@,
        r@[6]@ == "--release"@,
{
    ["ndk", "-t", target, "build", "-p", "hw-ffi", "--release"]
}

/// What cargo is told to run the benchmarks.
pub fn bench_args() -> (r: [&'static str; 2])
    ensures
        r@.len() == 2,
        r@[0]@ == "bench"@,
        r@[1]@ == "--workspace"@,
{
    ["bench", "--workspace"]
}

/// How the builds go on.
#[derive(Debug)]
pub enum BuildStep {
    /// Build for a target.
    Build(usize),
    /// All is built.
    Done,
    /// A build failed; the message.
    Failed(String),
}

/// How the builds go on once the one for a target went well or failed: with the next
/// target, until one fails or none is left.
pub fn after_build(i: usize, ok: bool) -> (r: BuildStep)
    requires
        i < TARGETS,
    ensures
        match r {
            BuildStep::Build(next) => ok && next == i + 1 && next < TARGETS,
            BuildStep::Done => ok && i + 1 == TARGETS,
            BuildStep::Failed(message) => !ok && message@ == "Build failed for "@ + target_name(
                i as int,
            ),
        },
        r is Failed <==> !ok,
        r is Done <==> ok && i == 2,
{
    if !ok {
        let mut message = "Build failed for ".to_string();
        message.append(target(i));
        return BuildStep::Failed(message);
    }
    if i + 1 < TARGETS {
        BuildStep::Build(i + 1)
    } else {
        BuildStep::Done
    }
}

/// What is said of benchmarks that failed, if they did.
pub fn bench_failure(ok: bool) -> (r: Option<&'static str>)
    ensures
        match r {
            Some(message) => !ok && message@ == "Benchmarks failed"@,
            None => ok,
        },
{
    if ok {
        None
    } else {
        Some("Benchmarks failed")
    }
}

/// The three tasks have different names.
pub proof fn task_names_differ()
    ensures
        task_named("gen-header"@) == Task::GenHeader,
        task_named("build-android"@) == Task::BuildAndroid,
        task_named("bench"@) == Task::Bench,
{
    reveal_strlit("gen-header");
    reveal_strlit("build-android");
    reveal_strlit("bench");
    assert("gen-header"@.len() == 10);
    assert("build-android"@.len() == 13);
    assert("bench"@.len() == 5);
}

/// A word that is none of the three names names no task, and a task has one name only.
pub proof fn a_task_has_one_name(word: Seq<char>, other: Seq<char>)
    ensures
        task_named(word) is Unknown <==> word != "gen-header"@ && word != "build-android"@ && word
            != "bench"@,
        task_named(word) == task_named(other) && task_named(word) !is Unknown ==> word == other,
        task_named(word) !is Usage,
{
    task_names_differ();
}

/// The three targets are different.
pub proof fn targets_differ(i: int, k: int)
    requires
        0 <= i < k < 3,
    ensures
        target_name(i) != target_name(k),
        target_name(0) == "armv7-linux-androideabi"@,
        target_name(1) == "aarch64-linux-android"@,
        target_name(2) == "x86_64-linux-android"@,
{
    reveal_strlit("armv7-linux-androideabi");
    reveal_strlit("aarch64-linux-android");
    reveal_strlit("x86_64-linux-android");
    assert("armv7-linux-androideabi"@.len() == 23);
    assert("aarch64-linux-android"@.len() == 21);
    assert("x86_64-linux-android"@.len() == 20);
}

} // verus!

//! The supervisor: watch the sources, rebuild when they change, and restart the
//! server when it asks for it.
use crate::json::{json_of, jsons, member, owned_text_member, parse, parsed, text_member, Json};
use crate::text::{extension, file_extension, group_views, opt_view, same, starts_with, views};
use vstd::prelude::*;

verus! {

/// The exit code by which the server asks to be restarted.
pub const RESTART_CODE: i32 = 42;

// ---------------------------------------------------------------------------
// The main loop
// ---------------------------------------------------------------------------

/// What the supervisor is doing.
#[derive(Debug, Clone, Copy, PartialEq, Eq, Structural)]
pub enum Stage {
    /// The first build is running.
    Starting,
    /// The server runs and the sources are watched.
    Watching,
    /// A build is running.
    Building,
    /// The supervisor was interrupted and waits for the server to exit.
    Stopping,
    Over,
}

#[derive(Debug, Clone, Copy, PartialEq, Eq, Structural)]
pub struct Supervisor {
    pub stage: Stage,
    /// The sources changed while they were being built.
    pub rebuild_pending: bool,
    /// The running server has been told of a new build.
    pub update_signaled: bool,
    /// The server exited while the sources were being built, with a code if it was not
    /// killed.
    pub exited: Option<Option<i32>>,
    /// The supervisor was interrupted while the sources were being built.
    pub interrupted: bool,
}

#[derive(Debug, Clone, Copy, PartialEq, Eq, Structural)]
pub enum Happening {
    /// A build has finished.
    BuildDone(BuildVerdict),
    SourceChanged,
    /// The server exited, with a code if it was not killed.
    ChildExited(Option<i32>),
    /// The exit of the server can no longer be learnt.
    ChildLost,
    Interrupted,
}

#[derive(Debug, Clone, Copy, PartialEq, Eq, Structural)]
pub enum Order {
    Build,
    /// Start the server from the latest binary.
    Spawn,
    /// Start the server from the latest binary, then build once more.
    SpawnAndBuild,
    /// Tell the server that a new build is ready.
    SignalUpdate,
    /// Tell the server that a new build is ready, then build once more.
    SignalUpdateAndBuild,
    /// Close the pipe to the server, so that it shuts down.
    ClosePipe,
    Exit(i32),
    Nothing,
}

/// The code to exit with when the server has exited.
pub open spec fn final_code(code: Option<i32>) -> i32 {
    match code {
        Some(c) => c,
        None => 1,
    }
}

/// The first state: the initial build is running.
pub open spec fn initial() -> Supervisor {
    at_stage(Stage::Starting)
}

/// A supervisor at a stage, with nothing to remember.
pub open spec fn at_stage(stage: Stage) -> Supervisor {
    Supervisor {
        stage,
        rebuild_pending: false,
        update_signaled: false,
        exited: None,
        interrupted: false,
    }
}

/// What follows a build during which only the sources may have changed: the server is told of the first new binary since it was
/// started, and sources that changed during the build are built once more.
pub open spec fn after_build(s: Supervisor, ready: bool) -> (Supervisor, Order) {
    let signal = ready && !s.update_signaled;
    let next = Supervisor {
        stage: if s.rebuild_pending {
            Stage::Building
        } else {
            Stage::Watching
        },
        rebuild_pending: false,
        update_signaled: s.update_signaled || ready,
        ..s
    };
    let order = match (signal, s.rebuild_pending) {
        (true, true) => Order::SignalUpdateAndBuild,
        (true, false) => Order::SignalUpdate,
        (false, true) => Order::Build,
        (false, false) => Order::Nothing,
    };
    (next, order)
}

/// What follows a build: an exit of the server or an interrupt that came meanwhile is
/// taken up first.
pub open spec fn build_over(s: Supervisor, ready: bool) -> (Supervisor, Order) {
    match s.exited {
        Some(code) => if s.interrupted || code != Some(RESTART_CODE) {
            (Supervisor { stage: Stage::Over, ..s }, Order::Exit(final_code(code)))
        } else if s.rebuild_pending {
            (at_stage(Stage::Building), Order::SpawnAndBuild)
        } else {
            (at_stage(Stage::Watching), Order::Spawn)
        },
        None => if s.interrupted {
            (Supervisor { stage: Stage::Stopping, ..s }, Order::ClosePipe)
        } else {
            after_build(s, ready)
        },
    }
}

/// What the supervisor does about what happens. An exit of the server or an interrupt
/// during a build is remembered until the build is done, since the binary is aside.
pub open spec fn supervised(s: Supervisor, happening: Happening) -> (Supervisor, Order) {
    match (s.stage, happening) {
        (Stage::Starting, Happening::BuildDone(verdict)) => if verdict.usable {
            (Supervisor { stage: Stage::Watching, ..s }, Order::Spawn)
        } else {
            (Supervisor { stage: Stage::Over, ..s }, Order::Exit(1))
        },
        (Stage::Watching, Happening::SourceChanged) => (
            Supervisor { stage: Stage::Building, ..s },
            Order::Build,
        ),
        (Stage::Building, Happening::SourceChanged) => (
            Supervisor { rebuild_pending: true, ..s },
            Order::Nothing,
        ),
        (Stage::Building, Happening::BuildDone(verdict)) => build_over(s, verdict.ready),
        (Stage::Building, Happening::ChildExited(code)) => (
            Supervisor { exited: Some(code), ..s },
            Order::Nothing,
        ),
        (Stage::Building, Happening::Interrupted) => (
            Supervisor { interrupted: true, ..s },
            Order::Nothing,
        ),
        (Stage::Building, Happening::ChildLost) => (
            Supervisor { stage: Stage::Over, ..s },
            Order::Exit(1),
        ),
        (Stage::Watching, Happening::ChildExited(code)) => if code == Some(RESTART_CODE) {
            (at_stage(Stage::Watching), Order::Spawn)
        } else {
            (Supervisor { stage: Stage::Over, ..s }, Order::Exit(final_code(code)))
        },
        (Stage::Watching, Happening::ChildLost) => (
            Supervisor { stage: Stage::Over, ..s },
            Order::Exit(1),
        ),
        (Stage::Watching, Happening::Interrupted) => (
            Supervisor { stage: Stage::Stopping, ..s },
            Order::ClosePipe,
        ),
        (Stage::Stopping, Happening::ChildExited(code)) => (
            Supervisor { stage: Stage::Over, ..s },
            Order::Exit(final_code(code)),
        ),
        (Stage::Stopping, Happening::ChildLost) => (
            Supervisor { stage: Stage::Over, ..s },
            Order::Exit(1),
        ),
        _ => (s, Order::Nothing),
    }
}

/// Start to supervise: build first.
pub fn start() -> (r: (Supervisor, Order))
    ensures
        r.0 == initial(),
        r.1 == Order::Build,
{
    (make_supervisor(Stage::Starting), Order::Build)
}

fn make_supervisor(stage: Stage) -> (r: Supervisor)
    ensures
        r == at_stage(stage),
{
    Supervisor {
        stage,
        rebuild_pending: false,
        update_signaled: false,
        exited: None,
        interrupted: false,
    }
}

fn asks_restart(code: Option<i32>) -> (r: bool)
    ensures
        r == (code == Some(RESTART_CODE)),
{
    match code {
        Some(c) => c == RESTART_CODE,
        None => false,
    }
}

/// Decide what to do when a build is over.
fn end_build(s: Supervisor, ready: bool) -> (r: (Supervisor, Order))
    ensures
        r == build_over(s, ready),
{
    if let Some(code) = s.exited {
        return if s.interrupted || !asks_restart(code) {
            (Supervisor { stage: Stage::Over, ..s }, Order::Exit(exit_code(code)))
        } else if s.rebuild_pending {
            (make_supervisor(Stage::Building), Order::SpawnAndBuild)
        } else {
            (make_supervisor(Stage::Watching), Order::Spawn)
        };
    }
    if s.interrupted {
        return (Supervisor { stage: Stage::Stopping, ..s }, Order::ClosePipe);
    }
    let signal = ready && !s.update_signaled;
    let next = Supervisor {
        stage: if s.rebuild_pending {
            Stage::Building
        } else {
            Stage::Watching
        },
        rebuild_pending: false,
        update_signaled: s.update_signaled || ready,
        ..s
    };
    let order = match (signal, s.rebuild_pending) {
        (true, true) => Order::SignalUpdateAndBuild,
        (true, false) => Order::SignalUpdate,
        (false, true) => Order::Build,
        (false, false) => Order::Nothing,
    };
    (next, order)
}

fn exit_code(code: Option<i32>) -> (r: i32)
    ensures
        r == final_code(code),
{
    match code {
        Some(c) => c,
        None => 1,
    }
}

/// Decide what to do about what happens.
pub fn supervise(s: Supervisor, happening: Happening) -> (r: (Supervisor, Order))
    ensures
        r == supervised(s, happening),
{
    match (s.stage, happening) {
        (Stage::Starting, Happening::BuildDone(verdict)) => {
            if verdict.usable {
                (Supervisor { stage: Stage::Watching, ..s }, Order::Spawn)
            } else {
                (Supervisor { stage: Stage::Over, ..s }, Order::Exit(1))
            }
        },
        (Stage::Watching, Happening::SourceChanged) => {
            (Supervisor { stage: Stage::Building, ..s }, Order::Build)
        },
        (Stage::Building, Happening::SourceChanged) => {
            (Supervisor { rebuild_pending: true, ..s }, Order::Nothing)
        },
        (Stage::Building, Happening::BuildDone(verdict)) => end_build(s, verdict.ready),
        (Stage::Building, Happening::ChildExited(code)) => {
            (Supervisor { exited: Some(code), ..s }, Order::Nothing)
        },
        (Stage::Building, Happening::Interrupted) => {
            (Supervisor { interrupted: true, ..s }, Order::Nothing)
        },
        (Stage::Building, Happening::ChildLost) => {
            (Supervisor { stage: Stage::Over, ..s }, Order::Exit(1))
        },
        (Stage::Watching, Happening::ChildExited(code)) => {
            if asks_restart(code) {
                (make_supervisor(Stage::Watching), Order::Spawn)
            } else {
                (Supervisor { stage: Stage::Over, ..s }, Order::Exit(exit_code(code)))
            }
        },
        (Stage::Watching, Happening::ChildLost) => {
            (Supervisor { stage: Stage::Over, ..s }, Order::Exit(1))
        },
        (Stage::Watching, Happening::Interrupted) => {
            (Supervisor { stage: Stage::Stopping, ..s }, Order::ClosePipe)
        },
        (Stage::Stopping, Happening::ChildExited(code)) => {
            (Supervisor { stage: Stage::Over, ..s }, Order::Exit(exit_code(code)))
        },
        (Stage::Stopping, Happening::ChildLost) => {
            (Supervisor { stage: Stage::Over, ..s }, Order::Exit(1))
        },
        _ => (s, Order::Nothing),
    }
}

// ---------------------------------------------------------------------------
// Building
// ---------------------------------------------------------------------------

/// How a run of cargo ended.
#[derive(Debug, Clone, Copy, PartialEq, Eq, Structural)]
pub enum CargoOutcome {
    /// It could not be run.
    NotRun,
    Failed,
    Succeeded,
}

/// What a build came to.
#[derive(Debug, Clone, Copy, PartialEq, Eq, Structural)]
pub struct BuildVerdict {
    /// There is a binary that a server can be started from.
    pub usable: bool,
    /// It is another one than before the build.
    pub ready: bool,
    /// The old one has to be put back.
    pub roll_back: bool,
}

/// A build is usable if cargo succeeded and left a binary where it belongs, and ready
/// if that binary is a new one.
pub open spec fn build_verdict(
    outcome: CargoOutcome,
    binary_exists: bool,
    changed: bool,
) -> BuildVerdict {
    let usable = outcome == CargoOutcome::Succeeded && binary_exists;
    BuildVerdict { usable, ready: usable && changed, roll_back: !usable }
}

/// Judge a build. `changed` says whether the binary is another one than before.
pub fn judge_build(outcome: CargoOutcome, binary_exists: bool, changed: bool) -> (r: BuildVerdict)
    ensures
        r == build_verdict(outcome, binary_exists, changed),
{
    let usable = outcome == CargoOutcome::Succeeded && binary_exists;
    BuildVerdict { usable, ready: usable && changed, roll_back: !usable }
}

/// Whether a build has changed the binary: by the times of its last modification before
/// and after, none where there was no binary.
pub fn binary_changed(before: Option<u128>, after: Option<u128>) -> (r: bool)
    ensures
        r == (before != after),
{
    match (before, after) {
        (Some(b), Some(a)) => b != a,
        (None, None) => false,
        _ => true,
    }
}

/// Whether to move the old binary back: when it is there and its place is free.
pub fn should_restore(old_exists: bool, binary_exists: bool) -> (r: bool)
    ensures
        r == (old_exists && !binary_exists),
{
    old_exists && !binary_exists
}

/// The binaries on disk: the one that cargo writes, and the one put aside before the
/// build. A number tells binaries apart.
pub struct Binaries {
    pub current: Option<int>,
    pub aside: Option<int>,
}

/// Before a build the binary is put aside.
pub open spec fn put_aside(b: Binaries) -> Binaries {
    if b.current is Some {
        Binaries { current: None, aside: b.current }
    } else {
        b
    }
}

/// After a build that gave no new binary the old one is moved back.
pub open spec fn restored(b: Binaries) -> Binaries {
    if b.aside is Some && b.current is None {
        Binaries { current: b.aside, aside: None }
    } else {
        b
    }
}

/// The binaries after a build. `made` is what cargo left in the binary's place.
pub open spec fn built(b: Binaries, outcome: CargoOutcome, made: Option<int>) -> Binaries {
    let after = Binaries { current: made, aside: put_aside(b).aside };
    if build_verdict(outcome, made is Some, made != b.current).roll_back {
        restored(after)
    } else {
        after
    }
}

/// A build never takes the server's binary away: where there was one there is one
/// afterwards, it is the old one unless cargo left another, and a build is only called
/// ready when cargo left another.
pub proof fn law_build_keeps_a_binary(b: Binaries, outcome: CargoOutcome, made: Option<int>)
    requires
        b.current is Some,
    ensures
        built(b, outcome, made).current == match made {
            Some(n) => Some(n),
            None => b.current,
        },
        build_verdict(outcome, made is Some, made != b.current).ready ==> {
            &&& built(b, outcome, made) == (Binaries { current: made, aside: b.current })
            &&& made != b.current
        },
{
}

/// A binary that a build has not changed is no update, but it can be started from as any
/// other.
pub proof fn law_unchanged_binary_is_no_update(outcome: CargoOutcome, binary_exists: bool)
    ensures
        !build_verdict(outcome, binary_exists, false).ready,
        build_verdict(outcome, binary_exists, false).usable == build_verdict(
            outcome,
            binary_exists,
            true,
        ).usable,
{
}

/// The extension that marks the binary put aside. `suffix` is what executables end
/// in here.
pub fn prev_extension(suffix: &str) -> (r: String)
    ensures
        r@ == "prev"@ + suffix@,
{
    "prev".to_string().concat(suffix)
}

/// The name of the directory that holds binaries of a profile.
pub open spec fn profile_dir(release: bool) -> Seq<char> {
    if release {
        "release"@
    } else {
        "debug"@
    }
}

/// The path of the binary below the workspace's root, by components.
pub fn cargo_output_path(release: bool, suffix: &str) -> (r: Vec<String>)
    ensures
        views(r@) == seq!["target"@, profile_dir(release), "ri-web"@ + suffix@],
{
    broadcast use group_views;

    let mut r: Vec<String> = Vec::new();
    r.push("target".to_string());
    r.push(
        if release {
            "release".to_string()
        } else {
            "debug".to_string()
        },
    );
    r.push("ri-web".to_string().concat(suffix));
    assert(views(r@) =~= seq!["target"@, profile_dir(release), "ri-web"@ + suffix@]);
    r
}

/// The arguments for cargo: the same profile as this binary's.
pub fn build_args(release: bool) -> (r: Vec<String>)
    ensures
        views(r@) == if release {
            seq!["build"@, "-p"@, "ri-web"@, "--release"@]
        } else {
            seq!["build"@, "-p"@, "ri-web"@]
        },
{
    broadcast use group_views;

    let mut r: Vec<String> = Vec::new();
    r.push("build".to_string());
    r.push("-p".to_string());
    r.push("ri-web".to_string());
    if release {
        r.push("--release".to_string());
        assert(views(r@) =~= seq!["build"@, "-p"@, "ri-web"@, "--release"@]);
    } else {
        assert(views(r@) =~= seq!["build"@, "-p"@, "ri-web"@]);
    }
    r
}

/// The arguments without the flag that asks for a supervisor.
pub open spec fn without_watch(args: Seq<Seq<char>>) -> Seq<Seq<char>>
    decreases args.len(),
{
    if args.len() == 0 {
        Seq::empty()
    } else if args.last() == "--watch"@ {
        without_watch(args.drop_last())
    } else {
        without_watch(args.drop_last()).push(args.last())
    }
}

/// The arguments for the server, from those of the supervisor. The first of `args`
/// is the name of the program.
#[verifier::loop_isolation(false)]
pub fn collect_child_args(args: &Vec<String>) -> (r: Vec<String>)
    ensures
        views(r@) == if args.len() == 0 {
            Seq::empty()
        } else {
            without_watch(views(args@).drop_first())
        },
{
    broadcast use group_views;

    let mut r: Vec<String> = Vec::new();
    if args.len() == 0 {
        return r;
    }
    let ghost all = views(args@).drop_first();
    let mut i: usize = 1;
    while i < args.len()
        invariant
            1 <= i <= args.len(),
            views(r@) == without_watch(all.take(i - 1)),
        decreases args.len() - i,
    {
        assert(all.take(i as int).drop_last() =~= all.take(i - 1));
        assert(all.take(i as int).last() == args@[i as int]@);
        if !same(args[i].as_str(), "--watch") {
            r.push(args[i].clone());
        }
        i += 1;
    }
    assert(all.take(i - 1) =~= all);
    r
}

proof fn lemma_without_watch(args: Seq<Seq<char>>)
    ensures
        forall|a: Seq<char>| #[trigger]
            without_watch(args).contains(a) <==> args.contains(a) && a != "--watch"@,
    decreases args.len(),
{
    if args.len() > 0 {
        let init = args.drop_last();
        let last = args.last();
        lemma_without_watch(init);
        let before = without_watch(init);
        let all = without_watch(args);
        assert(args[args.len() - 1] == last);
        assert forall|a: Seq<char>| #[trigger] all.contains(a) <==> args.contains(a) && a
            != "--watch"@ by {
            if args.contains(a) && a != last {
                let k = choose|k: int| 0 <= k < args.len() && args[k] == a;
                assert(init[k] == a);
            }
            if init.contains(a) {
                let k = choose|k: int| 0 <= k < init.len() && init[k] == a;
                assert(args[k] == a);
            }
            if last != "--watch"@ {
                assert(all == before.push(last));
                if before.contains(a) {
                    let k = choose|k: int| 0 <= k < before.len() && before[k] == a;
                    assert(all[k] == a);
                }
                assert(all[before.len() as int] == last);
                if all.contains(a) && a != last {
                    let k = choose|k: int| 0 <= k < all.len() && all[k] == a;
                    assert(before[k] == a);
                }
            }
        }
    }
}

/// The server is never told to supervise, and gets every other argument.
pub proof fn law_child_gets_other_args(args: Seq<Seq<char>>, arg: Seq<char>)
    ensures
        without_watch(args).contains(arg) <==> args.contains(arg) && arg != "--watch"@,
{
    lemma_without_watch(args);
}

// ---------------------------------------------------------------------------
// What to watch
// ---------------------------------------------------------------------------

/// A file whose name begins with a dot is hidden.
pub open spec fn hidden(name: Seq<char>) -> bool {
    name.len() > 0 && name[0] == '.'
}

/// Whether a change of a file is worth a build, by the name of the file: Rust
/// sources, manifests and lock files are, unless they are hidden.
pub open spec fn relevant(name: Seq<char>) -> bool {
    &&& !hidden(name)
    &&& match extension(name) {
        Some(e) => e == "rs"@ || e == "toml"@ || e == "lock"@,
        None => false,
    }
}

pub fn is_relevant(file_name: &str) -> (r: bool)
    ensures
        r == relevant(file_name@),
{
    proof {
        reveal_strlit(".");
    }
    if starts_with(file_name, ".") {
        assert(file_name@[0] == file_name@.take(1)[0]);
        return false;
    }
    assert(file_name@.len() > 0 && file_name@[0] == '.' ==> file_name@.take(1) =~= "."@);
    match file_extension(file_name) {
        Some(e) => {
            same(e.as_str(), "rs") || same(e.as_str(), "toml") || same(e.as_str(), "lock")
        },
        None => false,
    }
}

/// Whether nothing below a directory is worth a build, by the name of the directory:
/// what cargo makes, and what git keeps.
pub open spec fn ignored_dir(name: Seq<char>) -> bool {
    name == "target"@ || name == ".git"@
}

/// Whether a change at a path is worth a build: the path leads through no ignored
/// directory to a file that is.
pub open spec fn relevant_path(path: Seq<Seq<char>>) -> bool {
    &&& path.len() > 0
    &&& relevant(path.last())
    &&& forall|i: int| 0 <= i < path.len() - 1 ==> !ignored_dir(#[trigger] path[i])
}

/// Whether a change at a path is worth a build. The path is given by its components
/// below the workspace's root.
pub fn is_relevant_path(path: &Vec<String>) -> (r: bool)
    ensures
        r == relevant_path(views(path@)),
{
    let ghost all = views(path@);
    if path.len() == 0 {
        return false;
    }
    let last: usize = path.len() - 1;
    let mut i: usize = 0;
    while i < last
        invariant
            i <= last,
            last == path.len() - 1,
            all == views(path@),
            forall|j: int| 0 <= j < i ==> !ignored_dir(#[trigger] all[j]),
        decreases last - i,
    {
        assert(all[i as int] == path@[i as int]@);
        if same(path[i].as_str(), "target") || same(path[i].as_str(), ".git") {
            return false;
        }
        i += 1;
    }
    is_relevant(path[last].as_str())
}

/// Whether any of the changes is worth a build.
pub fn any_relevant(paths: &Vec<Vec<String>>) -> (r: bool)
    ensures
        r == exists|i: int|
            0 <= i < paths@.len() && relevant_path(views((#[trigger] paths@[i])@)),
{
    let mut i: usize = 0;
    while i < paths.len()
        invariant
            i <= paths.len(),
            forall|j: int| 0 <= j < i ==> !relevant_path(views((#[trigger] paths@[j])@)),
        decreases paths.len() - i,
    {
        if is_relevant_path(&paths[i]) {
            return true;
        }
        i += 1;
    }
    false
}

/// Whether a package in cargo's metadata is a local one: it has no source.
pub open spec fn is_local(package: Json) -> bool {
    match package.member("source"@) {
        Some(source) => source is Null,
        None => true,
    }
}

/// The manifests of the local packages among some, in order.
pub open spec fn manifests_in(packages: Seq<Json>) -> Seq<Seq<char>>
    decreases packages.len(),
{
    if packages.len() == 0 {
        Seq::empty()
    } else {
        let rest = manifests_in(packages.drop_last());
        match packages.last().text_member("manifest_path"@) {
            Some(path) => if is_local(packages.last()) {
                rest.push(path)
            } else {
                rest
            },
            None => rest,
        }
    }
}

pub open spec fn local_manifests(metadata: Json) -> Seq<Seq<char>> {
    match metadata.array_member("packages"@) {
        Some(packages) => manifests_in(packages),
        None => Seq::empty(),
    }
}

/// The workspace: its root and the manifests of its packages.
pub struct Workspace {
    pub root: String,
    pub manifests: Vec<String>,
}

#[verifier::loop_isolation(false)]
fn collect_manifests(packages: &Vec<serde_json::Value>) -> (r: Vec<String>)
    ensures
        views(r@) == manifests_in(jsons(packages@)),
{
    broadcast use group_views;

    let ghost all = jsons(packages@);
    let mut r: Vec<String> = Vec::new();
    let mut i: usize = 0;
    while i < packages.len()
        invariant
            i <= packages.len(),
            views(r@) == manifests_in(all.take(i as int)),
        decreases packages.len() - i,
    {
        assert(all.take(i + 1).drop_last() =~= all.take(i as int));
        assert(all.take(i + 1).last() == json_of(packages@[i as int]));
        let local = match member(&packages[i], "source") {
            Some(source) => source.is_null(),
            None => true,
        };
        if local {
            if let Some(path) = owned_text_member(&packages[i], "manifest_path") {
                r.push(path);
            }
        }
        i += 1;
    }
    assert(all.take(i as int) =~= all);
    r
}

/// Read the workspace out of cargo's metadata; none where it names no root.
pub fn read_workspace(metadata: &serde_json::Value) -> (r: Option<Workspace>)
    ensures
        match r {
            Some(w) => json_of(*metadata).text_member("workspace_root"@) == Some(w.root@) && views(
                w.manifests@,
            ) == local_manifests(json_of(*metadata)),
            None => json_of(*metadata).text_member("workspace_root"@) is None,
        },
{
    broadcast use group_views;

    let root = match owned_text_member(metadata, "workspace_root") {
        Some(root) => root,
        None => {
            return None;
        },
    };
    let manifests: Vec<String> = match member(metadata, "packages") {
        Some(packages) => match packages.as_array() {
            Some(list) => collect_manifests(list),
            None => Vec::new(),
        },
        None => Vec::new(),
    };
    Some(Workspace { root, manifests })
}

/// Why cargo's metadata could not be used.
#[derive(Debug, Clone, Copy, PartialEq, Eq, Structural)]
pub enum MetadataError {
    NoJson,
    NoRoot,
}

/// Read the workspace out of the text that `cargo metadata` prints.
pub fn read_metadata(text: &str) -> (r: Result<Workspace, MetadataError>)
    ensures
        match r {
            Ok(w) => parsed(text@) is Some && parsed(text@)->0.text_member("workspace_root"@)
                == Some(w.root@) && views(w.manifests@) == local_manifests(parsed(text@)->0),
            Err(MetadataError::NoJson) => parsed(text@) is None,
            Err(MetadataError::NoRoot) => parsed(text@) is Some && parsed(text@)->0.text_member(
                "workspace_root"@,
            ) is None,
        },
{
    match parse(text) {
        Some(json) => match read_workspace(&json) {
            Some(w) => Ok(w),
            None => Err(MetadataError::NoRoot),
        },
        None => Err(MetadataError::NoJson),
    }
}

/// A package: its manifest and its source directory, where there is one.
pub struct PackageFiles {
    pub src: Option<String>,
    pub manifest: String,
}

pub open spec fn package_paths(package: PackageFiles) -> Seq<Seq<char>> {
    match package.src {
        Some(src) => seq![src@, package.manifest@],
        None => seq![package.manifest@],
    }
}

pub open spec fn packages_paths(packages: Seq<PackageFiles>) -> Seq<Seq<char>>
    decreases packages.len(),
{
    if packages.len() == 0 {
        Seq::empty()
    } else {
        packages_paths(packages.drop_last()) + package_paths(packages.last())
    }
}

/// The paths to watch: of each package its sources and its manifest, then the lock
/// file of the workspace.
pub open spec fn paths_to_watch(packages: Seq<PackageFiles>, lock: Option<Seq<char>>) -> Seq<
    Seq<char>,
> {
    packages_paths(packages) + match lock {
        Some(path) => seq![path],
        None => Seq::empty(),
    }
}

#[verifier::loop_isolation(false)]
pub fn watch_paths(packages: &Vec<PackageFiles>, lock: Option<String>) -> (r: Vec<String>)
    ensures
        views(r@) == paths_to_watch(packages@, opt_view(lock)),
{
    broadcast use group_views;

    let mut r: Vec<String> = Vec::new();
    let mut i: usize = 0;
    while i < packages.len()
        invariant
            i <= packages.len(),
            views(r@) == packages_paths(packages@.take(i as int)),
        decreases packages.len() - i,
    {
        assert(packages@.take(i + 1).drop_last() =~= packages@.take(i as int));
        let ghost before = views(r@);
        if let Some(src) = &packages[i].src {
            r.push(src.clone());
        }
        r.push(packages[i].manifest.clone());
        assert(views(r@) =~= before + package_paths(packages@[i as int]));
        i += 1;
    }
    assert(packages@.take(i as int) =~= packages@);
    let ghost before = views(r@);
    if let Some(path) = lock {
        r.push(path);
    }
    assert(views(r@) =~= paths_to_watch(packages@, opt_view(lock)));
    r
}

// ---------------------------------------------------------------------------
// Laws of the main loop
// ---------------------------------------------------------------------------

/// The supervisor after several happenings, and all the orders it gave.
pub open spec fn supervised_all(s: Supervisor, happenings: Seq<Happening>) -> (
    Supervisor,
    Seq<Order>,
)
    decreases happenings.len(),
{
    if happenings.len() == 0 {
        (s, Seq::empty())
    } else {
        let before = supervised_all(s, happenings.drop_last());
        let next = supervised(before.0, happenings.last());
        (next.0, before.1.push(next.1))
    }
}

/// How many updates were signaled since a server was last started.
pub open spec fn signals_since_spawn(orders: Seq<Order>) -> nat
    decreases orders.len(),
{
    if orders.len() == 0 {
        0
    } else {
        match orders.last() {
            Order::Spawn | Order::SpawnAndBuild => 0,
            Order::SignalUpdate | Order::SignalUpdateAndBuild => signals_since_spawn(orders.drop_last()) + 1,
            _ => signals_since_spawn(orders.drop_last()),
        }
    }
}

/// A server is told of an update at most once in its life, whatever happens.
pub proof fn law_one_signal_per_server(happenings: Seq<Happening>)
    ensures
        ({
            let r = supervised_all(initial(), happenings);
            &&& signals_since_spawn(r.1) == if r.0.update_signaled {
                1nat
            } else {
                0nat
            }
            &&& r.0.stage == Stage::Starting ==> !r.0.update_signaled
        }),
    decreases happenings.len(),
{
    if happenings.len() > 0 {
        law_one_signal_per_server(happenings.drop_last());
        let before = supervised_all(initial(), happenings.drop_last());
        let next = supervised(before.0, happenings.last());
        assert(before.1.push(next.1).drop_last() =~= before.1);
    }
}

/// A build that fails while the server runs, or changes nothing, leaves the server alone:
/// it is told of no update, and the supervisor goes back to watching, or builds again if
/// the sources have changed since.
pub proof fn law_failed_build_changes_nothing(s: Supervisor, verdict: BuildVerdict)
    requires
        s.stage == Stage::Building,
        s.exited is None,
        !s.interrupted,
        !verdict.ready,
    ensures
        supervised(s, Happening::BuildDone(verdict)) == if s.rebuild_pending {
            (Supervisor { rebuild_pending: false, ..s }, Order::Build)
        } else {
            (Supervisor { stage: Stage::Watching, ..s }, Order::Nothing)
        },
{
}

/// However often the sources change during a build, that build is followed by exactly
/// one more, unless the supervisor stops.
pub proof fn law_changes_collapse(s: Supervisor, changes: Seq<Happening>, verdict: BuildVerdict)
    requires
        s.stage == Stage::Building,
        !s.interrupted,
        s.exited is None || s.exited == Some(Some(RESTART_CODE)),
        changes.len() > 0,
        forall|i: int| 0 <= i < changes.len() ==> changes[i] == Happening::SourceChanged,
    ensures
        ({
            let r = supervised_all(s, changes);
            let done = supervised(r.0, Happening::BuildDone(verdict));
            &&& forall|i: int| 0 <= i < r.1.len() ==> r.1[i] == Order::Nothing
            &&& done.1 == Order::Build || done.1 == Order::SignalUpdateAndBuild || done.1
                == Order::SpawnAndBuild
            &&& done.0.stage == Stage::Building && !done.0.rebuild_pending
        }),
    decreases changes.len(),
{
    let init = changes.drop_last();
    assert(changes.last() == Happening::SourceChanged);
    if init.len() == 0 {
        assert(supervised_all(s, init) == (s, Seq::<Order>::empty()));
    } else {
        assert forall|i: int| 0 <= i < init.len() implies init[i] == Happening::SourceChanged by {
            assert(init[i] == changes[i]);
        }
        law_changes_collapse(s, init, verdict);
    }
}

/// The supervisor exits only when the server has exited for good, cannot be reached,
/// or could not be built in the first place, and then with the server's code where
/// it has one.
pub proof fn law_exit_follows_the_server(s: Supervisor, happening: Happening, code: i32)
    requires
        supervised(s, happening).1 == Order::Exit(code),
    ensures
        match happening {
            Happening::ChildExited(c) => code == final_code(c),
            Happening::ChildLost => code == 1,
            Happening::BuildDone(v) => s.stage == Stage::Starting && !v.usable && code == 1
                || s.stage == Stage::Building && s.exited is Some && code == final_code(
                s.exited->0,
            ),
            _ => false,
        },
        supervised(s, happening).0.stage == Stage::Over,
{
}

/// When the server exits without asking for a restart, or while the supervisor is
/// stopping, the supervisor exits too, with the server's code.
pub proof fn law_exit_ends_the_supervisor(s: Supervisor, code: Option<i32>)
    requires
        s.stage == Stage::Stopping || s.stage == Stage::Watching && code != Some(RESTART_CODE),
    ensures
        supervised(s, Happening::ChildExited(code)) == (
            (Supervisor { stage: Stage::Over, ..s }, Order::Exit(final_code(code)))
        ),
{
}

/// The same holds of an exit during a build, once that build is done, whatever else
/// happens meanwhile.
pub proof fn law_exit_during_a_build(
    s: Supervisor,
    code: Option<i32>,
    between: Seq<Happening>,
    verdict: BuildVerdict,
)
    requires
        s.stage == Stage::Building,
        code != Some(RESTART_CODE),
        forall|i: int|
            0 <= i < between.len() ==> #[trigger] between[i] == Happening::SourceChanged
                || between[i] == Happening::Interrupted,
    ensures
        ({
            let left = supervised(s, Happening::ChildExited(code)).0;
            let r = supervised_all(left, between).0;
            supervised(r, Happening::BuildDone(verdict)).1 == Order::Exit(final_code(code))
        }),
    decreases between.len(),
{
    let left = supervised(s, Happening::ChildExited(code)).0;
    lemma_exit_is_remembered(left, between);
}

proof fn lemma_exit_is_remembered(s: Supervisor, between: Seq<Happening>)
    requires
        s.stage == Stage::Building,
        forall|i: int|
            0 <= i < between.len() ==> #[trigger] between[i] == Happening::SourceChanged
                || between[i] == Happening::Interrupted,
    ensures
        supervised_all(s, between).0.stage == Stage::Building,
        supervised_all(s, between).0.exited == s.exited,
    decreases between.len(),
{
    if between.len() > 0 {
        let init = between.drop_last();
        assert(between[between.len() - 1] == between.last());
        assert forall|i: int| 0 <= i < init.len() implies #[trigger] init[i]
            == Happening::SourceChanged || init[i] == Happening::Interrupted by {
            assert(init[i] == between[i]);
        }
        lemma_exit_is_remembered(s, init);
    }
}

/// An interrupt always leads to the end: at once the server is asked to stop, or once the
/// build is done that is running.
pub proof fn law_interrupt_stops(s: Supervisor, verdict: BuildVerdict)
    requires
        s.stage == Stage::Watching || s.stage == Stage::Building && s.exited is None,
    ensures
        ({
            let r = supervised(s, Happening::Interrupted);
            let last = if s.stage == Stage::Watching {
                r
            } else {
                supervised(r.0, Happening::BuildDone(verdict))
            };
            last.1 == Order::ClosePipe && last.0.stage == Stage::Stopping
        }),
{
}

/// While the server runs, a restart that it asks for always gets it a fresh server
/// that knows of no update. Where a build is running, it gets it once that is done.
pub proof fn law_restart_is_honoured(s: Supervisor, verdict: BuildVerdict)
    requires
        s.stage == Stage::Watching || s.stage == Stage::Building && !s.interrupted,
    ensures
        ({
            let r = supervised(s, Happening::ChildExited(Some(RESTART_CODE)));
            let last = if s.stage == Stage::Watching {
                r
            } else {
                supervised(r.0, Happening::BuildDone(verdict))
            };
            &&& last.1 == Order::Spawn || last.1 == Order::SpawnAndBuild
            &&& !last.0.update_signaled
            &&& last.0.stage == Stage::Watching || last.0.stage == Stage::Building
        }),
{
}

} // verus!

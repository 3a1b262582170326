//! What holds of the supervisor over what happens and what it is told of the sources.
use crate::json::Json;
use crate::shutdown::{reacted, Reaction, Shutdown, Signal};
use crate::text::extension;
use crate::text_laws::{law_extension_is_found, law_name_is_stem_and_extension};
use crate::watch::{
    build_verdict, final_code, ignored_dir, initial, is_local, local_manifests, manifests_in,
    packages_paths, paths_to_watch, profile_dir, relevant, relevant_path, supervised, without_watch,
    BuildVerdict, CargoOutcome, Happening, Order, PackageFiles, Stage, Supervisor,
};
use vstd::prelude::*;

verus! {

// ---------------------------------------------------------------------------
// The main loop
// ---------------------------------------------------------------------------

/// The supervisor starts the server once the first build has given a binary, and gives up
/// with an error where it has not.
pub proof fn law_first_build_starts_the_server(verdict: BuildVerdict)
    ensures
        initial().stage == Stage::Starting,
        ({
            let (next, order) = supervised(initial(), Happening::BuildDone(verdict));
            &&& verdict.usable ==> order == Order::Spawn && next.stage == Stage::Watching
            &&& !verdict.usable ==> order == Order::Exit(1) && next.stage == Stage::Over
            &&& !next.update_signaled && !next.rebuild_pending && !next.interrupted
            &&& next.exited is None
        }),
{
}

/// A change of the sources is built at once, or noted while a build is running; it does
/// nothing else.
pub proof fn law_changes_are_built(s: Supervisor)
    ensures
        s.stage == Stage::Watching ==> supervised(s, Happening::SourceChanged) == (
            (Supervisor { stage: Stage::Building, ..s }, Order::Build)
        ),
        s.stage == Stage::Building ==> supervised(s, Happening::SourceChanged) == (
            (Supervisor { rebuild_pending: true, ..s }, Order::Nothing)
        ),
        s.stage == Stage::Stopping || s.stage == Stage::Over ==> supervised(
            s,
            Happening::SourceChanged,
        ) == (s, Order::Nothing),
{
}

/// A new build is told to the server that runs, the first time, and what changed meanwhile
/// is built then.
pub proof fn law_new_builds_are_told(s: Supervisor, verdict: BuildVerdict)
    requires
        s.stage == Stage::Building,
        s.exited is None,
        !s.interrupted,
        verdict.ready,
    ensures
        ({
            let (next, order) = supervised(s, Happening::BuildDone(verdict));
            &&& next.update_signaled
            &&& !next.rebuild_pending
            &&& next.stage == if s.rebuild_pending {
                Stage::Building
            } else {
                Stage::Watching
            }
            &&& !s.update_signaled && !s.rebuild_pending ==> order == Order::SignalUpdate
            &&& !s.update_signaled && s.rebuild_pending ==> order == Order::SignalUpdateAndBuild
            &&& s.update_signaled && !s.rebuild_pending ==> order == Order::Nothing
            &&& s.update_signaled && s.rebuild_pending ==> order == Order::Build
        }),
{
}

/// A server that can no longer be reached ends the supervisor with an error.
pub proof fn law_lost_servers_end_it(s: Supervisor)
    requires
        s.stage == Stage::Watching || s.stage == Stage::Building || s.stage == Stage::Stopping,
    ensures
        supervised(s, Happening::ChildLost) == (
            (Supervisor { stage: Stage::Over, ..s }, Order::Exit(1))
        ),
{
}

/// When it is over nothing more is done.
pub proof fn law_over_is_over(s: Supervisor, happening: Happening)
    requires
        s.stage == Stage::Over,
    ensures
        supervised(s, happening) == (s, Order::Nothing),
{
}

/// The code that the server exits with for an update is the one on which the supervisor
/// starts it anew.
pub proof fn law_update_exits_restart(s: Supervisor)
    requires
        s.stage == Stage::Watching,
    ensures
        ({
            let draining = reacted(Shutdown::Serving, Signal::Update).0;
            match reacted(draining, Signal::Drained).1 {
                Reaction::EndStreamsAndExit(code) => code == 42 && supervised(
                    s,
                    Happening::ChildExited(Some(code)),
                ).1 == Order::Spawn,
                _ => false,
            }
        }),
        supervised(s, Happening::ChildExited(Some(0))).1 == Order::Exit(0),
{
}

/// The supervisor exits with the code of the server, and with an error where that was
/// killed.
pub proof fn law_codes_are_passed_on(code: i32)
    ensures
        final_code(Some(code)) == code,
        final_code(None) == 1,
{
}

/// A build can be used where cargo succeeded and there is a binary, is an update where that
/// is another one, and is rolled back where it cannot be used.
pub proof fn law_builds_are_judged(outcome: CargoOutcome, exists_now: bool, changed: bool)
    ensures
        ({
            let verdict = build_verdict(outcome, exists_now, changed);
            &&& verdict.usable <==> outcome == CargoOutcome::Succeeded && exists_now
            &&& verdict.ready <==> outcome == CargoOutcome::Succeeded && exists_now && changed
            &&& verdict.roll_back <==> outcome != CargoOutcome::Succeeded || !exists_now
        }),
        profile_dir(true) == "release"@,
        profile_dir(false) == "debug"@,
{
}

/// The server gets the arguments of the supervisor in their order, each as often as it was
/// given, but the one that asks for a supervisor.
pub proof fn law_args_are_passed_on_in_order(args: Seq<Seq<char>>)
    ensures
        without_watch(args) == args.filter(|a: Seq<char>| a != "--watch"@),
    decreases args.len(),
{
    reveal(Seq::filter);
    if args.len() > 0 {
        law_args_are_passed_on_in_order(args.drop_last());
    }
}

// ---------------------------------------------------------------------------
// What to watch
// ---------------------------------------------------------------------------

/// A file is worth a build where its name ends in one of three ways and does not begin with
/// a dot, and no other file is.
pub proof fn law_sources_are_relevant(stem: Seq<char>, name: Seq<char>)
    requires
        stem.len() > 0,
        stem[0] != '.',
    ensures
        relevant(stem + "."@ + "rs"@),
        relevant(stem + "."@ + "toml"@),
        relevant(stem + "."@ + "lock"@),
        relevant(name) ==> name.len() > 0 && name[0] != '.' && exists|s: Seq<char>|
            #![trigger s + "."@]
            s.len() > 0 && (name == s + "."@ + "rs"@ || name == s + "."@ + "toml"@ || name == s
                + "."@ + "lock"@),
{
    reveal_strlit("rs");
    reveal_strlit("toml");
    reveal_strlit("lock");
    reveal_strlit(".");
    assert("rs"@ =~= seq!['r', 's']);
    assert("toml"@ =~= seq!['t', 'o', 'm', 'l']);
    assert("lock"@ =~= seq!['l', 'o', 'c', 'k']);
    law_extension_is_found(stem, "rs"@);
    law_extension_is_found(stem, "toml"@);
    law_extension_is_found(stem, "lock"@);
    assert((stem + "."@ + "rs"@)[0] == stem[0]);
    assert((stem + "."@ + "toml"@)[0] == stem[0]);
    assert((stem + "."@ + "lock"@)[0] == stem[0]);
    if relevant(name) {
        law_name_is_stem_and_extension(name);
        let e = extension(name)->0;
        let s = crate::text::stem(name);
        assert(name == s + "."@ + e);
    }
}

/// What lies below a directory that is left out is never worth a build; what lies elsewhere
/// is by its name alone.
pub proof fn law_builds_and_git_are_left_out(dirs: Seq<Seq<char>>, name: Seq<char>)
    ensures
        dirs.contains("target"@) || dirs.contains(".git"@) ==> !relevant_path(dirs.push(name)),
        !dirs.contains("target"@) && !dirs.contains(".git"@) ==> relevant_path(dirs.push(name))
            == relevant(name),
{
    let path = dirs.push(name);
    assert(path.last() == name);
    if dirs.contains("target"@) {
        let i = choose|i: int| 0 <= i < dirs.len() && dirs[i] == "target"@;
        assert(ignored_dir(path[i]));
    } else if dirs.contains(".git"@) {
        let i = choose|i: int| 0 <= i < dirs.len() && dirs[i] == ".git"@;
        assert(ignored_dir(path[i]));
    } else {
        assert forall|i: int| 0 <= i < path.len() - 1 implies !ignored_dir(#[trigger] path[i]) by {
            assert(path[i] == dirs[i]);
            assert(dirs.contains(dirs[i]));
        }
    }
}

/// The manifests of a workspace are those of its packages that have no source, in their
/// order.
pub proof fn law_local_manifests_are_listed(a: Seq<Json>, b: Seq<Json>, package: Json)
    ensures
        manifests_in(a + b) == manifests_in(a) + manifests_in(b),
        is_local(package) <==> package.member("source"@) is None || package.member("source"@)
            == Some(Json::Null),
        is_local(package) ==> match package.text_member("manifest_path"@) {
            Some(path) => manifests_in(seq![package]) == seq![path],
            None => manifests_in(seq![package]).len() == 0,
        },
        !is_local(package) ==> manifests_in(seq![package]).len() == 0,
        package.array_member("packages"@) matches Some(items) ==> local_manifests(package)
            == manifests_in(items),
        package.array_member("packages"@) is None ==> local_manifests(package).len() == 0,
    decreases b.len(),
{
    let none = Seq::<Seq<char>>::empty();
    if b.len() == 0 {
        assert(a + b =~= a);
        assert(manifests_in(a) + none =~= manifests_in(a));
    } else {
        assert((a + b).drop_last() =~= a + b.drop_last());
        assert((a + b).last() == b.last());
        law_local_manifests_are_listed(a, b.drop_last(), package);
        assert(manifests_in(a + b) =~= manifests_in(a) + manifests_in(b));
    }
    assert(seq![package].drop_last() =~= Seq::<Json>::empty());
    assert(manifests_in(seq![package].drop_last()) =~= none);
    if let Some(path) = package.text_member("manifest_path"@) {
        if is_local(package) {
            assert(manifests_in(seq![package]) =~= seq![path]);
        }
    }
}

/// Of each package in turn its sources are watched, where there are any, and its manifest;
/// and last the lock file, where there is one.
pub proof fn law_packages_are_watched(
    a: Seq<PackageFiles>,
    b: Seq<PackageFiles>,
    package: PackageFiles,
    lock: Seq<char>,
)
    ensures
        packages_paths(a + b) == packages_paths(a) + packages_paths(b),
        package.src matches Some(src) ==> packages_paths(seq![package]) == seq![
            src@,
            package.manifest@,
        ],
        package.src is None ==> packages_paths(seq![package]) == seq![package.manifest@],
        paths_to_watch(a, Some(lock)) == packages_paths(a).push(lock),
        paths_to_watch(a, None) == packages_paths(a),
    decreases b.len(),
{
    let none = Seq::<Seq<char>>::empty();
    if b.len() == 0 {
        assert(a + b =~= a);
        assert(packages_paths(a) + none =~= packages_paths(a));
    } else {
        assert((a + b).drop_last() =~= a + b.drop_last());
        assert((a + b).last() == b.last());
        law_packages_are_watched(a, b.drop_last(), package, lock);
        assert(packages_paths(a + b) =~= packages_paths(a) + packages_paths(b));
    }
    assert(seq![package].drop_last() =~= Seq::<PackageFiles>::empty());
    assert(packages_paths(seq![package].drop_last()) =~= none);
    if let Some(src) = package.src {
        assert(packages_paths(seq![package]) =~= seq![src@, package.manifest@]);
    } else {
        assert(packages_paths(seq![package]) =~= seq![package.manifest@]);
    }
    assert(paths_to_watch(a, Some(lock)) =~= packages_paths(a).push(lock));
    assert(paths_to_watch(a, None) =~= packages_paths(a));
}

} // verus!

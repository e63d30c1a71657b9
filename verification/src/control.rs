//! The update control: finding the package manager of a host, the upgrade
//! recipes, the cleanup of the package cache, and the reports of a run.
//!
//! Running commands is the caller's part.

use crate::cleanup::CleanupResult;
use crate::numbers::{decimal, push_count};
use crate::packages::PackageManager;
use crate::profiles::CleanupProfile;
use crate::server::{
    parse_server_list,
    parse_servers_with_local_name,
    resolve_list,
    resolve_servers,
    server_views,
    Server,
    ServerConfigError,
    ServerRegistry,
    ServerView,
};
use crate::sizes::{format_bytes_spec, push_bytes};
use crate::text::{
    contains_str,
    eq_ignore_case,
    from_chars,
    has_substring,
    is_text,
    is_text_ignore_case,
    push_all,
    push_str,
    str_same,
    to_chars,
    trim,
    trimmed,
    opt_str,
};
use crate::tokens::{join, join_with, lines, lines_of, push_row, rows, slices, split_on, texts};
use vstd::prelude::*;

verus! {

/// The program through which upgrades run.
pub const SUDO: &'static str = "/usr/bin/sudo";

/// The shell that probes for a package manager.
pub const SHELL: &'static str = "sh";

/// The program that refreshes the package metadata in the background.
pub const REFRESH_PROGRAM: &'static str = "/usr/bin/dnf";

// ---------------------------------------------------------------------------
// Detection
// ---------------------------------------------------------------------------

/// The command line that tells whether a package manager's binary exists
/// and is executable.
pub open spec fn probe_line(pm: PackageManager) -> Seq<char> {
    "test -x /usr/bin/"@ + pm.binary_spec() + " && echo found"@
}

/// The arguments of the shell for the probe of a package manager.
pub fn probe_args(pm: PackageManager) -> (r: Vec<String>)
    ensures
        texts(r@) == seq!["-c"@, probe_line(pm)],
{
    let mut line = to_chars("test -x /usr/bin/");
    push_str(&mut line, pm.binary());
    push_str(&mut line, " && echo found");
    let mut a: Vec<String> = Vec::new();
    a.push("-c".to_string());
    a.push(from_chars(&line));
    assert(texts(a@) =~= seq!["-c"@, probe_line(pm)]);
    a
}

/// Whether a probe found its package manager: the command ran and printed
/// `found`.
pub open spec fn probe_hit(output: Option<Seq<char>>) -> bool {
    output is Some && trimmed(output->0) == "found"@
}

pub fn is_detected(output: Option<&str>) -> (r: bool)
    ensures
        r == probe_hit(
            match output {
                Some(o) => Some(o@),
                None => None,
            },
        ),
{
    match output {
        Some(o) => is_text(&trim(&to_chars(o)), "found"),
        None => false,
    }
}

/// The package managers in the order in which a host is probed for them.
pub open spec fn candidates() -> Seq<PackageManager> {
    seq![PackageManager::Apt, PackageManager::Dnf, PackageManager::Pacman]
}

/// The search for the package manager of a host: how many candidates were
/// probed so far.
#[derive(Debug, Clone, Copy, PartialEq, Eq, Structural)]
pub struct Detection {
    pub probed: usize,
}

/// What the search does next.
#[derive(Debug, Clone, Copy, PartialEq, Eq, Structural)]
pub enum DetectionStep {
    /// Probe for this package manager, and come back with the outcome.
    Probe(PackageManager),
    /// The host has this package manager.
    Found(PackageManager),
    /// The host has none of the supported package managers.
    NotFound,
}

/// The next step of a search, given the outcome of the probe that was made
/// last: the candidate whose probe hit is found; else the next candidate is
/// probed; after the last candidate the search has failed.
pub open spec fn next_step(d: Detection, last_hit: bool) -> (Detection, DetectionStep) {
    if 0 < d.probed <= candidates().len() && last_hit {
        (d, DetectionStep::Found(candidates()[d.probed - 1]))
    } else if d.probed < candidates().len() {
        (Detection { probed: (d.probed + 1) as usize }, DetectionStep::Probe(candidates()[d.probed as int]))
    } else {
        (d, DetectionStep::NotFound)
    }
}

impl Detection {
    /// A search that has probed nothing yet.
    pub fn new() -> (r: Self)
        ensures
            r.probed == 0,
    {
        Detection { probed: 0 }
    }

    /// Takes the outcome of the last probe, where one was made, and says
    /// what to do next.
    pub fn advance(&mut self, last_output: Option<&str>) -> (r: DetectionStep)
        ensures
            (*final(self), r) == next_step(
                *old(self),
                probe_hit(
                    match last_output {
                        Some(o) => Some(o@),
                        None => None,
                    },
                ),
            ),
    {
        let all = PackageManager::all();
        if self.probed > 0 && self.probed <= all.len() && is_detected(last_output) {
            return DetectionStep::Found(all[self.probed - 1]);
        }
        if self.probed < all.len() {
            let pm = all[self.probed];
            self.probed = self.probed + 1;
            DetectionStep::Probe(pm)
        } else {
            DetectionStep::NotFound
        }
    }
}

/// The error of a search that failed.
pub open spec fn not_found_text(server: Seq<char>) -> Seq<char> {
    "No supported package manager found on "@ + server
}

pub fn not_found_message(server_name: &str) -> (r: String)
    ensures
        r@ == not_found_text(server_name@),
{
    let mut out = to_chars("No supported package manager found on ");
    push_str(&mut out, server_name);
    from_chars(&out)
}

/// Whether a check command works on cached metadata, which is then to be
/// refreshed in the background: it is `dnf` with `--cacheonly`.
pub open spec fn wants_refresh(cmd: Seq<char>, args: Seq<Seq<char>>) -> bool {
    cmd == "/usr/bin/dnf"@ && args.contains("--cacheonly"@)
}

pub fn needs_cache_refresh(cmd: &str, args: &Vec<&'static str>) -> (r: bool)
    ensures
        r == wants_refresh(cmd@, slices(args@)),
{
    if !str_same(cmd, "/usr/bin/dnf") {
        return false;
    }
    let mut i: usize = 0;
    while i < args.len()
        invariant
            i <= args.len(),
            cmd@ == "/usr/bin/dnf"@,
            forall|k: int| 0 <= k < i ==> slices(args@)[k] != "--cacheonly"@,
        decreases args.len() - i,
    {
        if str_same(args[i], "--cacheonly") {
            assert(slices(args@)[i as int] == "--cacheonly"@);
            return true;
        }
        i += 1;
    }
    false
}

/// The arguments of `dnf` that refresh its metadata.
pub fn refresh_args() -> (r: Vec<String>)
    ensures
        texts(r@) == seq!["makecache"@, "--quiet"@],
{
    let mut a: Vec<String> = Vec::new();
    a.push("makecache".to_string());
    a.push("--quiet".to_string());
    assert(texts(a@) =~= seq!["makecache"@, "--quiet"@]);
    a
}

// ---------------------------------------------------------------------------
// Upgrades
// ---------------------------------------------------------------------------

/// The upgrade of each package manager: the argument lists handed to
/// `sudo`, one command after the other.
pub open spec fn upgrade_recipe(pm: PackageManager) -> Seq<Seq<Seq<char>>> {
    match pm {
        PackageManager::Apt => seq![
            seq!["apt-get"@, "update"@, "-qq"@],
            seq!["DEBIAN_FRONTEND=noninteractive"@, "apt-get"@, "full-upgrade"@, "-y"@],
        ],
        PackageManager::Dnf => seq![seq!["dnf"@, "upgrade"@, "-y"@]],
        PackageManager::Pacman => seq![seq!["pacman"@, "-Syu"@, "--noconfirm"@]],
    }
}

pub open spec fn command_views(v: Seq<Vec<String>>) -> Seq<Seq<Seq<char>>> {
    Seq::new(v.len(), |i: int| texts(v[i]@))
}

fn command(words: &Vec<&'static str>) -> (r: Vec<String>)
    ensures
        texts(r@) == slices(words@),
{
    let mut out: Vec<String> = Vec::new();
    let mut i: usize = 0;
    while i < words.len()
        invariant
            i <= words.len(),
            texts(out@) =~= slices(words@).subrange(0, i as int),
        decreases words.len() - i,
    {
        let ghost before = texts(out@);
        let w = words[i].to_string();
        out.push(w);
        assert(texts(out@) =~= before.push(words@[i as int]@));
        assert(slices(words@).subrange(0, i + 1) =~= slices(words@).subrange(0, i as int).push(
            words@[i as int]@,
        ));
        i += 1;
    }
    assert(slices(words@).subrange(0, words@.len() as int) =~= slices(words@));
    out
}

pub fn upgrade_commands(pm: PackageManager) -> (r: Vec<Vec<String>>)
    ensures
        command_views(r@) == upgrade_recipe(pm),
{
    let mut out: Vec<Vec<String>> = Vec::new();
    match pm {
        PackageManager::Apt => {
            let mut a: Vec<&'static str> = Vec::new();
            a.push("apt-get");
            a.push("update");
            a.push("-qq");
            assert(slices(a@) =~= seq!["apt-get"@, "update"@, "-qq"@]);
            let mut b: Vec<&'static str> = Vec::new();
            b.push("DEBIAN_FRONTEND=noninteractive");
            b.push("apt-get");
            b.push("full-upgrade");
            b.push("-y");
            assert(slices(b@) =~= seq![
                "DEBIAN_FRONTEND=noninteractive"@,
                "apt-get"@,
                "full-upgrade"@,
                "-y"@,
            ]);
            out.push(command(&a));
            out.push(command(&b));
        },
        PackageManager::Dnf => {
            let mut a: Vec<&'static str> = Vec::new();
            a.push("dnf");
            a.push("upgrade");
            a.push("-y");
            assert(slices(a@) =~= seq!["dnf"@, "upgrade"@, "-y"@]);
            out.push(command(&a));
        },
        PackageManager::Pacman => {
            let mut a: Vec<&'static str> = Vec::new();
            a.push("pacman");
            a.push("-Syu");
            a.push("--noconfirm");
            assert(slices(a@) =~= seq!["pacman"@, "-Syu"@, "--noconfirm"@]);
            out.push(command(&a));
        },
    }
    assert(command_views(out@) =~= upgrade_recipe(pm));
    out
}

/// What a dry run of an OS update reports.
pub open spec fn dry_run_text(pending: nat) -> Seq<char> {
    if pending == 0 {
        "No updates available"@
    } else {
        decimal(pending) + " packages would be updated"@
    }
}

pub fn dry_run_report(pending: usize) -> (r: String)
    ensures
        r@ == dry_run_text(pending as nat),
{
    if pending == 0 {
        "No updates available".to_string()
    } else {
        let mut out: Vec<char> = Vec::new();
        push_count(&mut out, pending);
        push_str(&mut out, " packages would be updated");
        assert(out@ =~= decimal(pending as nat) + " packages would be updated"@);
        from_chars(&out)
    }
}

/// What an OS update reports once the checker was run again after the
/// upgrade.
pub open spec fn upgrade_text(remaining: nat) -> Seq<char> {
    if remaining == 0 {
        "✅ Up to date"@
    } else {
        "⚠️ "@ + decimal(remaining)
            + " updates still available (may require reboot or manual intervention)"@
    }
}

pub fn upgrade_report(remaining: usize) -> (r: String)
    ensures
        r@ == upgrade_text(remaining as nat),
{
    if remaining == 0 {
        "✅ Up to date".to_string()
    } else {
        let mut out = to_chars("⚠️ ");
        push_count(&mut out, remaining);
        push_str(&mut out, " updates still available (may require reboot or manual intervention)");
        from_chars(&out)
    }
}

// ---------------------------------------------------------------------------
// The report of a run on one server
// ---------------------------------------------------------------------------

/// The first line of a server's report.
pub open spec fn header_text(server: ServerView, display_host: Seq<char>, dry_run: bool) -> Seq<
    char,
> {
    (if dry_run {
        "[DRY-RUN] "@
    } else {
        ""@
    }) + "🖥️  "@ + server.name + " ("@ + display_host + ")"@
}

pub fn report_header(server: &Server, display_host: &str, dry_run: bool) -> (r: String)
    ensures
        r@ == header_text(server@, display_host@, dry_run),
{
    let mut out = if dry_run {
        to_chars("[DRY-RUN] ")
    } else {
        to_chars("")
    };
    push_str(&mut out, "🖥️  ");
    push_str(&mut out, server.name.as_str());
    push_str(&mut out, " (");
    push_str(&mut out, display_host);
    push_str(&mut out, ")");
    from_chars(&out)
}

pub fn os_updates_line(result: &str) -> (r: String)
    ensures
        r@ == "   OS Updates: "@ + result@,
{
    let mut out = to_chars("   OS Updates: ");
    push_str(&mut out, result);
    from_chars(&out)
}

pub fn docker_updates_line(result: &str) -> (r: String)
    ensures
        r@ == "   Docker Updates: "@ + result@,
{
    let mut out = to_chars("   Docker Updates: ");
    push_str(&mut out, result);
    from_chars(&out)
}

/// The report of a server: its lines, one below the other.
pub fn assemble_report(report_lines: &Vec<String>) -> (r: String)
    ensures
        r@ == join_with(texts(report_lines@), "\n"@),
{
    let text = join(&crate::tokens::from_strings(report_lines), "\n");
    from_chars(&text)
}

/// All reports of a run: each followed by an empty line, but for the last.
pub fn assemble_details(reports: &Vec<String>) -> (r: String)
    ensures
        r@ == join_with(texts(reports@), "\n\n"@),
{
    let text = join(&crate::tokens::from_strings(reports), "\n\n");
    from_chars(&text)
}

/// How many items a cleanup removed in all.
pub open spec fn items_removed(r: CleanupResult) -> nat {
    r.dangling_images_removed as nat + r.networks_removed as nat
        + r.stopped_containers_removed as nat + r.unused_images_removed as nat
}

/// The lines that tell of a Docker cleanup: the profile, what could be
/// reclaimed, and either what a run removed and reclaimed or that nothing
/// was executed.
pub open spec fn docker_cleanup_lines(
    profile: CleanupProfile,
    reclaimable: u64,
    executed: Option<CleanupResult>,
) -> Seq<Seq<char>> {
    let head = seq![
        "   Docker Cleanup ("@ + profile.label_spec() + " profile):"@,
        "     Total reclaimable: "@ + format_bytes_spec(reclaimable),
    ];
    match executed {
        Some(r) => head.push("     Removed: "@ + decimal(items_removed(r)) + " items"@).push(
            "     Reclaimed: "@ + format_bytes_spec(r.space_reclaimed_bytes),
        ),
        None => head.push("     (Analysis only - use --execute to clean)"@),
    }
}

pub fn docker_cleanup_report(
    profile: CleanupProfile,
    reclaimable: u64,
    executed: &Option<CleanupResult>,
) -> (r: String)
    ensures
        r@ == join_with(docker_cleanup_lines(profile, reclaimable, *executed), "\n"@),
{
    let mut out: Vec<Vec<char>> = Vec::new();
    let mut first = to_chars("   Docker Cleanup (");
    push_str(&mut first, profile.label());
    push_str(&mut first, " profile):");
    let mut second = to_chars("     Total reclaimable: ");
    push_bytes(&mut second, reclaimable);
    let ghost l1 = first@;
    let ghost l2 = second@;
    out.push(first);
    out.push(second);
    assert(rows(out@) =~= seq![l1, l2]);
    match executed {
        Some(r) => {
            let n: u128 = r.dangling_images_removed as u128 + r.networks_removed as u128
                + r.stopped_containers_removed as u128 + r.unused_images_removed as u128;
            let mut a = to_chars("     Removed: ");
            crate::numbers::push_wide_decimal(&mut a, n);
            push_str(&mut a, " items");
            let mut b = to_chars("     Reclaimed: ");
            push_bytes(&mut b, r.space_reclaimed_bytes);
            push_row(&mut out, a);
            push_row(&mut out, b);
        },
        None => {
            push_row(&mut out, to_chars("     (Analysis only - use --execute to clean)"));
        },
    }
    let text = join(&out, "\n");
    from_chars(&text)
}

// ---------------------------------------------------------------------------
// The cleanup of the OS
// ---------------------------------------------------------------------------

/// What a cleanup of the OS does.
#[derive(Debug, Clone, Copy, PartialEq, Eq, Structural)]
pub struct OsCleanupPlan {
    pub clean_cache: bool,
    pub autoremove: bool,
    /// Whether the commands are run, not only named.
    pub run: bool,
}

/// The plan of a cleanup of the OS, or none where no operation is asked
/// for. The commands are run only where execution is asked for and the run
/// is no dry run.
pub fn plan_os_cleanup(cache: bool, autoremove: bool, all: bool, execute: bool, dry_run: bool) -> (r:
    Option<OsCleanupPlan>)
    ensures
        r == if all || cache || autoremove {
            Some(
                OsCleanupPlan {
                    clean_cache: all || cache,
                    autoremove: all || autoremove,
                    run: execute && !dry_run,
                },
            )
        } else {
            None
        },
{
    if all || cache || autoremove {
        Some(
            OsCleanupPlan {
                clean_cache: all || cache,
                autoremove: all || autoremove,
                run: execute && !dry_run,
            },
        )
    } else {
        None
    }
}

/// The report of a cleanup of the OS for which no operation was asked.
pub const NO_OS_OPERATIONS: &'static str =
    "   OS Cleanup: No operations specified (use --cache, --autoremove, or --all)";

/// The arguments handed to `sudo` that clean the package cache.
pub fn clean_cache_args(pm: PackageManager) -> (r: Vec<String>)
    ensures
        texts(r@) == seq![pm.binary_spec(), "clean"@, "all"@],
{
    let mut a: Vec<String> = Vec::new();
    a.push(pm.binary().to_string());
    a.push("clean".to_string());
    a.push("all".to_string());
    assert(texts(a@) =~= seq![pm.binary_spec(), "clean"@, "all"@]);
    a
}

/// The arguments handed to `sudo` that remove unused packages.
pub fn autoremove_args(pm: PackageManager) -> (r: Vec<String>)
    ensures
        texts(r@) == seq![pm.binary_spec(), "autoremove"@, "-y"@],
{
    let mut a: Vec<String> = Vec::new();
    a.push(pm.binary().to_string());
    a.push("autoremove".to_string());
    a.push("-y".to_string());
    assert(texts(a@) =~= seq![pm.binary_spec(), "autoremove"@, "-y"@]);
    a
}

/// Whether a line of an autoremove's output tells of a removed package.
pub open spec fn tells_of_package(line: Seq<char>) -> bool {
    has_substring(line, "Removing"@) || has_substring(line, "removed"@)
}

pub open spec fn count_packages(lines: Seq<Seq<char>>) -> nat
    decreases lines.len(),
{
    if lines.len() == 0 {
        0
    } else {
        count_packages(lines.drop_last()) + if tells_of_package(lines.last()) {
            1nat
        } else {
            0nat
        }
    }
}

fn removed_packages(output: &str) -> (r: usize)
    ensures
        r == count_packages(lines_of(output@)),
{
    let all = lines(&to_chars(output));
    let mut count: usize = 0;
    let mut i: usize = 0;
    assert(rows(all@).subrange(0, 0) =~= Seq::<Seq<char>>::empty());
    while i < all.len()
        invariant
            i <= all.len(),
            count <= i,
            count == count_packages(rows(all@).subrange(0, i as int)),
        decreases all.len() - i,
    {
        assert(rows(all@).subrange(0, i + 1).drop_last() =~= rows(all@).subrange(0, i as int));
        assert(rows(all@).subrange(0, i + 1).last() == all@[i as int]@);
        if contains_str(&all[i], "Removing") || contains_str(&all[i], "removed") {
            count += 1;
        }
        i += 1;
    }
    assert(rows(all@).subrange(0, all@.len() as int) =~= rows(all@));
    count
}

/// The line that tells of the package cache: what the cleaning printed
/// first, or `done`, where it was run; else the command that would run.
pub open spec fn cache_line(pm: PackageManager, output: Option<Seq<char>>) -> Seq<char> {
    match output {
        Some(o) => "     Package cache cleaned: "@ + (if lines_of(o).len() > 0 {
            lines_of(o)[0]
        } else {
            "done"@
        }),
        None => "     Package cache: "@ + pm.binary_spec() + " clean all (not executed)"@,
    }
}

/// The line that tells of the unused packages.
pub open spec fn autoremove_line(pm: PackageManager, output: Option<Seq<char>>) -> Seq<char> {
    match output {
        Some(o) => if count_packages(lines_of(o)) > 0 {
            "     Removed "@ + decimal(count_packages(lines_of(o))) + " unused packages"@
        } else {
            "     No unused packages to remove"@
        },
        None => "     Autoremove: "@ + pm.binary_spec() + " autoremove (not executed)"@,
    }
}

/// The lines of the report of a cleanup of the OS. An output is there for
/// each command that was run.
pub open spec fn os_cleanup_lines(
    pm: PackageManager,
    plan: OsCleanupPlan,
    execute: bool,
    cache_output: Option<Seq<char>>,
    autoremove_output: Option<Seq<char>>,
) -> Seq<Seq<char>> {
    let l0 = seq!["   OS Cleanup:"@];
    let l1 = crate::cleanup::push_if(l0, plan.clean_cache, cache_line(pm, cache_output));
    let l2 = crate::cleanup::push_if(
        l1,
        plan.autoremove,
        autoremove_line(pm, autoremove_output),
    );
    crate::cleanup::push_if(l2, !execute, "     (Analysis only - use --execute to clean)"@)
}

pub fn os_cleanup_report(
    pm: PackageManager,
    plan: &OsCleanupPlan,
    execute: bool,
    cache_output: Option<&str>,
    autoremove_output: Option<&str>,
) -> (r: String)
    ensures
        r@ == join_with(
            os_cleanup_lines(pm, *plan, execute, opt_str(cache_output), opt_str(autoremove_output)),
            "\n"@,
        ),
{
    let mut out: Vec<Vec<char>> = Vec::new();
    out.push(to_chars("   OS Cleanup:"));
    assert(rows(out@) =~= seq!["   OS Cleanup:"@]);
    if plan.clean_cache {
        let line = match cache_output {
            Some(o) => {
                let all = lines(&to_chars(o));
                assert(rows(all@).len() == all@.len());
                let mut l = to_chars("     Package cache cleaned: ");
                if all.len() > 0 {
                    assert(rows(all@)[0] == all@[0]@);
                    push_all(&mut l, &all[0]);
                } else {
                    push_str(&mut l, "done");
                }
                l
            },
            None => {
                let mut l = to_chars("     Package cache: ");
                push_str(&mut l, pm.binary());
                push_str(&mut l, " clean all (not executed)");
                l
            },
        };
        push_row(&mut out, line);
    }
    if plan.autoremove {
        let line = match autoremove_output {
            Some(o) => {
                let n = removed_packages(o);
                if n > 0 {
                    let mut l = to_chars("     Removed ");
                    push_count(&mut l, n);
                    push_str(&mut l, " unused packages");
                    l
                } else {
                    to_chars("     No unused packages to remove")
                }
            },
            None => {
                let mut l = to_chars("     Autoremove: ");
                push_str(&mut l, pm.binary());
                push_str(&mut l, " autoremove (not executed)");
                l
            },
        };
        push_row(&mut out, line);
    }
    if !execute {
        push_row(&mut out, to_chars("     (Analysis only - use --execute to clean)"));
    }
    let text = join(&out, "\n");
    from_chars(&text)
}

// ---------------------------------------------------------------------------
// Which servers
// ---------------------------------------------------------------------------

/// Whether an answer to the confirmation prompt says yes: it is `y`, in
/// either case, with blanks around it or not.
pub fn is_confirmed(answer: &str) -> (r: bool)
    ensures
        r == eq_ignore_case(trimmed(answer@), "y"@),
{
    is_text_ignore_case(&trim(&to_chars(answer)), "y")
}

/// The servers that an inventory looks at: those of the list, then the
/// local server where that is asked for. That there is none is an error:
/// nothing is looked at then.
pub fn select_servers(server_list: &str, include_local: bool, local: Server) -> (r: Result<
    Vec<Server>,
    ServerConfigError,
>)
    ensures
        match r {
            Ok(v) => v@.len() > 0 && parse_server_list(split_on(server_list@, ','), local@.name)
                == Ok::<Seq<ServerView>, Seq<char>>(
                if include_local {
                    server_views(v@).drop_last()
                } else {
                    server_views(v@)
                },
            ) && (include_local ==> server_views(v@).last() == local@),
            Err(ServerConfigError::InvalidFormat { input }) => parse_server_list(
                split_on(server_list@, ','),
                local@.name,
            ) == Err::<Seq<ServerView>, Seq<char>>(input@),
            Err(ServerConfigError::EmptyServerList) => !include_local && parse_server_list(
                split_on(server_list@, ','),
                local@.name,
            ) == Ok::<Seq<ServerView>, Seq<char>>(Seq::<ServerView>::empty()),
            Err(_) => false,
        },
{
    let mut servers = match parse_servers_with_local_name(server_list, local.name.as_str()) {
        Ok(v) => v,
        Err(e) => {
            return Err(e);
        },
    };
    let ghost parsed = server_views(servers@);
    if include_local {
        assert(server_views(servers@.push(local)) =~= parsed.push(local@));
        servers.push(local);
        assert(server_views(servers@).drop_last() =~= parsed);
    }
    if servers.len() == 0 {
        assert(parsed =~= Seq::<ServerView>::empty());
        return Err(ServerConfigError::EmptyServerList);
    }
    Ok(servers)
}

// ---------------------------------------------------------------------------
// What is about to be done
// ---------------------------------------------------------------------------

/// What an update run was asked to do.
#[derive(Debug, Clone)]
pub enum Undertaking {
    /// Upgrade the packages of the operating system.
    Os,
    /// Update Docker images: all of them, or those of a list.
    Docker { all: bool, images: Option<String> },
    /// Both of the above.
    All,
    /// Analyze what Docker could clean up, or clean it up.
    CleanDocker { profile: String, execute: bool },
    /// Analyze what the package manager could clean up, or clean it up.
    CleanOs { cache: bool, autoremove: bool, all: bool, execute: bool },
}

/// The operations of an OS cleanup by name: both as one where all is asked
/// for, else each that is asked for.
pub open spec fn os_cleanup_names(cache: bool, autoremove: bool, all: bool) -> Seq<Seq<char>> {
    if all {
        seq!["cache + autoremove"@]
    } else {
        crate::cleanup::push_if(
            crate::cleanup::push_if(Seq::<Seq<char>>::empty(), cache, "cache"@),
            autoremove,
            "autoremove"@,
        )
    }
}

/// The line that tells, before the run is confirmed, what it will do.
pub open spec fn operation_line(u: Undertaking) -> Seq<char> {
    match u {
        Undertaking::Os => "Operation: OS package updates"@,
        Undertaking::Docker { all, images } => if all {
            "Operation: Update ALL Docker images"@
        } else {
            match images {
                Some(list) => "Operation: Update Docker images: "@ + list@,
                None => "Operation: Update Docker images (specify --all or --images)"@,
            }
        },
        Undertaking::All => "Operation: OS packages + Docker images"@,
        Undertaking::CleanDocker { profile, execute } => (if execute {
            "Operation: Execute Docker cleanup (profile: "@
        } else {
            "Operation: Analyze Docker cleanup opportunities (profile: "@
        }) + profile@ + ")"@,
        Undertaking::CleanOs { cache, autoremove, all, execute } => (if execute {
            "Operation: Execute OS cleanup ("@
        } else {
            "Operation: Analyze OS cleanup opportunities ("@
        }) + join_with(os_cleanup_names(cache, autoremove, all), ", "@) + ")"@,
    }
}

/// Writes the line that tells what a run will do.
pub fn describe_operation(u: &Undertaking) -> (r: String)
    ensures
        r@ == operation_line(*u),
{
    match u {
        Undertaking::Os => "Operation: OS package updates".to_string(),
        Undertaking::Docker { all, images } => {
            if *all {
                "Operation: Update ALL Docker images".to_string()
            } else {
                match images {
                    Some(list) => {
                        let mut out = to_chars("Operation: Update Docker images: ");
                        push_str(&mut out, list.as_str());
                        from_chars(&out)
                    },
                    None => "Operation: Update Docker images (specify --all or --images)".to_string(),
                }
            }
        },
        Undertaking::All => "Operation: OS packages + Docker images".to_string(),
        Undertaking::CleanDocker { profile, execute } => {
            let mut out = if *execute {
                to_chars("Operation: Execute Docker cleanup (profile: ")
            } else {
                to_chars("Operation: Analyze Docker cleanup opportunities (profile: ")
            };
            push_str(&mut out, profile.as_str());
            push_str(&mut out, ")");
            from_chars(&out)
        },
        Undertaking::CleanOs { cache, autoremove, all, execute } => {
            let mut names: Vec<Vec<char>> = Vec::new();
            assert(rows(names@) =~= Seq::<Seq<char>>::empty());
            if *all {
                push_row(&mut names, to_chars("cache + autoremove"));
                assert(rows(names@) =~= seq!["cache + autoremove"@]);
            } else {
                if *cache {
                    push_row(&mut names, to_chars("cache"));
                }
                if *autoremove {
                    push_row(&mut names, to_chars("autoremove"));
                }
            }
            assert(rows(names@) == os_cleanup_names(*cache, *autoremove, *all));
            let mut out = if *execute {
                to_chars("Operation: Execute OS cleanup (")
            } else {
                to_chars("Operation: Analyze OS cleanup opportunities (")
            };
            let listed = join(&names, ", ");
            push_all(&mut out, &listed);
            push_str(&mut out, ")");
            from_chars(&out)
        },
    }
}

/// The servers that a list of names and specs chooses; without a list, the
/// whole registry, or nothing where only the local server is asked for.
pub open spec fn chosen_servers(
    names: Option<Seq<char>>,
    include_local: bool,
    registry: Seq<ServerView>,
    local_name: Seq<char>,
) -> Result<Seq<ServerView>, Seq<char>> {
    match names {
        Some(list) => resolve_list(split_on(list, ','), registry, local_name),
        None => Ok(
            if include_local {
                Seq::<ServerView>::empty()
            } else {
                registry
            },
        ),
    }
}

/// The chosen servers, with the local server behind them where that is
/// asked for.
pub open spec fn with_local(base: Seq<ServerView>, include_local: bool, local: ServerView) -> Seq<
    ServerView,
> {
    if include_local {
        base.push(local)
    } else {
        base
    }
}

/// The servers that an update works on: those that the list of names and
/// specs resolves to, or without a list every registered server unless only
/// the local one is asked for; then the local server where that is asked
/// for. That there is none is an error: nothing is worked on then.
pub fn select_targets(
    names: Option<&str>,
    include_local: bool,
    registry: &ServerRegistry,
    local: Server,
) -> (r: Result<Vec<Server>, ServerConfigError>)
    ensures
        match r {
            Ok(v) => v@.len() > 0 && (chosen_servers(
                opt_str(names),
                include_local,
                registry.views(),
                local@.name,
            ) matches Ok(base) && server_views(v@) == with_local(base, include_local, local@)),
            Err(ServerConfigError::EmptyServerList) => chosen_servers(
                opt_str(names),
                include_local,
                registry.views(),
                local@.name,
            ) matches Ok(base) && with_local(base, include_local, local@).len() == 0,
            Err(ServerConfigError::ServerNotFound { name }) => chosen_servers(
                opt_str(names),
                include_local,
                registry.views(),
                local@.name,
            ) == Err::<Seq<ServerView>, Seq<char>>(name@) && !name@.contains('@')
                && !name@.contains(':'),
            Err(ServerConfigError::InvalidFormat { input }) => chosen_servers(
                opt_str(names),
                include_local,
                registry.views(),
                local@.name,
            ) == Err::<Seq<ServerView>, Seq<char>>(input@) && (input@.contains('@')
                || input@.contains(':')),
            Err(_) => false,
        },
{
    let mut servers = match names {
        Some(list) => match resolve_servers(list, registry, local.name.as_str()) {
            Ok(v) => v,
            Err(e) => {
                return Err(e);
            },
        },
        None => if include_local {
            let none: Vec<Server> = Vec::new();
            assert(server_views(none@) =~= Seq::<ServerView>::empty());
            none
        } else {
            registry.all()
        },
    };
    let ghost base = server_views(servers@);
    if include_local {
        assert(server_views(servers@.push(local)) =~= base.push(local@));
        servers.push(local);
    }
    if servers.len() == 0 {
        return Err(ServerConfigError::EmptyServerList);
    }
    Ok(servers)
}

} // verus!

//! Package managers: the commands that list pending updates and the parsers
//! of their output.

use crate::text::{contains_str, has_substring, push_str, slice, to_chars};
use crate::tokens::{
    lemma_filter_map_step,
    lines,
    lines_of,
    push_row,
    rows,
    slices,
    split,
    split_on,
    texts,
    to_strings,
    words,
    words_of,
};
use vstd::prelude::*;

verus! {

/// Package manager types we support.
#[derive(Debug, Clone, Copy, PartialEq, Eq, Structural)]
pub enum PackageManager {
    Apt,
    Dnf,
    Pacman,
}

impl PackageManager {
    pub open spec fn binary_spec(self) -> Seq<char> {
        match self {
            PackageManager::Apt => "apt"@,
            PackageManager::Dnf => "dnf"@,
            PackageManager::Pacman => "pacman"@,
        }
    }

    pub open spec fn display_name_spec(self) -> Seq<char> {
        match self {
            PackageManager::Apt => "APT (Debian/Ubuntu)"@,
            PackageManager::Dnf => "DNF (Fedora/RHEL)"@,
            PackageManager::Pacman => "Pacman (Arch)"@,
        }
    }

    /// Get the binary name for this package manager.
    pub fn binary(&self) -> (r: &'static str)
        ensures
            r@ == self.binary_spec(),
    {
        match self {
            PackageManager::Apt => "apt",
            PackageManager::Dnf => "dnf",
            PackageManager::Pacman => "pacman",
        }
    }

    /// Get display name.
    pub fn display_name(&self) -> (r: &'static str)
        ensures
            r@ == self.display_name_spec(),
    {
        match self {
            PackageManager::Apt => "APT (Debian/Ubuntu)",
            PackageManager::Dnf => "DNF (Fedora/RHEL)",
            PackageManager::Pacman => "Pacman (Arch)",
        }
    }

    /// All supported package managers, in the order in which a host is
    /// probed for them.
    pub fn all() -> (r: Vec<PackageManager>)
        ensures
            r@ == seq![PackageManager::Apt, PackageManager::Dnf, PackageManager::Pacman],
    {
        let mut v: Vec<PackageManager> = Vec::new();
        v.push(PackageManager::Apt);
        v.push(PackageManager::Dnf);
        v.push(PackageManager::Pacman);
        assert(v@ =~= seq![PackageManager::Apt, PackageManager::Dnf, PackageManager::Pacman]);
        v
    }
}

// ---------------------------------------------------------------------------
// What each output line says
// ---------------------------------------------------------------------------

/// The repository component of an `apt list` line: what stands between the
/// first `/` and the next space; empty where the line has no `/`.
pub open spec fn apt_repository(line: Seq<char>) -> Seq<char> {
    let name = split_on(line, '/')[0];
    if name.len() == line.len() {
        Seq::<char>::empty()
    } else {
        split_on(line.subrange(name.len() as int + 1, line.len() as int), ' ')[0]
    }
}

/// The update that an `apt list --upgradable` line reports: the package name
/// before the first `/`, marked when the repository component holds
/// `-security`; `None` for a line without the `[upgradable from:` marker.
pub open spec fn apt_entry(line: Seq<char>) -> Option<Seq<char>> {
    if has_substring(line, "[upgradable from:"@) {
        let name = split_on(line, '/')[0];
        if has_substring(apt_repository(line), "-security"@) {
            Some(name + " (security)"@)
        } else {
            Some(name)
        }
    } else {
        None
    }
}

pub open spec fn apt_rule() -> spec_fn(Seq<char>) -> Option<Seq<char>> {
    |line: Seq<char>| apt_entry(line)
}

/// The updates in the output of `apt list --upgradable`: the first line is a
/// header and is skipped.
pub open spec fn apt_updates(output: Seq<char>) -> Seq<Seq<char>> {
    let all = lines_of(output);
    if all.len() == 0 {
        Seq::<Seq<char>>::empty()
    } else {
        all.subrange(1, all.len() as int).filter_map(apt_rule())
    }
}

/// A first field without its architecture: what stands before its last `.`,
/// or all of it where it has none.
pub open spec fn strip_arch(field: Seq<char>) -> Seq<char> {
    let parts = split_on(field, '.');
    if parts.len() <= 1 {
        field
    } else {
        field.subrange(0, field.len() - parts.last().len() - 1)
    }
}

/// The update that a `dnf check-update` line reports: empty lines, comment
/// lines and lines of fewer than three fields report none.
pub open spec fn dnf_entry(line: Seq<char>) -> Option<Seq<char>> {
    if line.len() == 0 || line[0] == '#' || words_of(line).len() < 3 {
        None
    } else {
        Some(strip_arch(words_of(line)[0]))
    }
}

pub open spec fn dnf_rule() -> spec_fn(Seq<char>) -> Option<Seq<char>> {
    |line: Seq<char>| dnf_entry(line)
}

pub open spec fn dnf_updates(output: Seq<char>) -> Seq<Seq<char>> {
    lines_of(output).filter_map(dnf_rule())
}

/// The update that a `checkupdates` line reports: its first field.
pub open spec fn pacman_entry(line: Seq<char>) -> Option<Seq<char>> {
    if words_of(line).len() == 0 {
        None
    } else {
        Some(words_of(line)[0])
    }
}

pub open spec fn pacman_rule() -> spec_fn(Seq<char>) -> Option<Seq<char>> {
    |line: Seq<char>| pacman_entry(line)
}

pub open spec fn pacman_updates(output: Seq<char>) -> Seq<Seq<char>> {
    lines_of(output).filter_map(pacman_rule())
}

// ---------------------------------------------------------------------------
// The checkers
// ---------------------------------------------------------------------------

/// Trait for checking updates with different package managers.
pub trait UpdateChecker {
    /// The program and arguments of the check command.
    spec fn command_spec(&self) -> (Seq<char>, Seq<Seq<char>>);

    /// The package names that an output of the check command reports.
    spec fn updates_spec(&self, output: Seq<char>) -> Seq<Seq<char>>;

    /// Get the command to check for available updates.
    /// Returns: (command, args).
    fn check_command(&self) -> (r: (&'static str, Vec<&'static str>))
        ensures
            r.0@ == self.command_spec().0,
            slices(r.1@) == self.command_spec().1,
    ;

    /// Parse the output from the check command into a list of package names.
    fn parse_updates(&self, output: &str) -> (r: Vec<String>)
        ensures
            texts(r@) == self.updates_spec(output@),
    ;
}

/// APT package manager checker (Debian, Ubuntu, etc.).
pub struct AptChecker;

/// DNF package manager checker (Fedora, RHEL 8+, CentOS Stream, etc.).
pub struct DnfChecker;

/// Pacman package manager checker (Arch Linux, Manjaro, etc.).
pub struct PacmanChecker;

fn apt_line(line: &Vec<char>) -> (r: Option<Vec<char>>)
    ensures
        match r {
            Some(x) => apt_entry(line@) == Some(x@),
            None => apt_entry(line@) is None,
        },
{
    if !contains_str(line, "[upgradable from:") {
        return None;
    }
    let parts = split(line, '/');
    let first = &parts[0];
    assert(rows(parts@)[0] == first@);
    proof {
        lemma_first_piece_is_prefix(line@, '/');
    }
    let security = if first.len() == line.len() {
        false
    } else {
        let rest = slice(line, first.len() + 1, line.len());
        let fields = split(&rest, ' ');
        assert(rows(fields@)[0] == fields@[0]@);
        contains_str(&fields[0], "-security")
    };
    assert(security == has_substring(apt_repository(line@), "-security"@)) by {
        if first.len() == line.len() {
            assert(!has_substring(Seq::<char>::empty(), "-security"@)) by {
                reveal_strlit("-security");
                assert forall|i: int| !crate::text::occurs_at(
                    Seq::<char>::empty(),
                    "-security"@,
                    i,
                ) by {}
            }
        }
    }
    let mut name = slice(first, 0, first.len());
    assert(name@ =~= first@);
    if security {
        push_str(&mut name, " (security)");
    }
    Some(name)
}

/// The first piece of a split is a beginning of the text.
pub proof fn lemma_first_piece_is_prefix(s: Seq<char>, sep: char)
    ensures
        split_on(s, sep)[0].len() <= s.len(),
        split_on(s, sep)[0] == s.subrange(0, split_on(s, sep)[0].len() as int),
        split_on(s, sep).len() >= 1,
    decreases s.len(),
{
    if s.len() == 0 {
        assert(split_on(s, sep)[0] =~= s.subrange(0, 0));
    } else {
        let t = s.drop_last();
        lemma_first_piece_is_prefix(t, sep);
        let init = split_on(t, sep);
        let first = init[0];
        if s.last() == sep {
            assert(split_on(s, sep)[0] == first);
            assert(t.subrange(0, first.len() as int) =~= s.subrange(0, first.len() as int));
        } else if init.len() == 1 {
            crate::tokens::lemma_split_on_laws(t, sep);
            assert(first == t);
            assert(t.subrange(0, first.len() as int) =~= t);
            assert(split_on(s, sep)[0] =~= s.subrange(0, s.len() as int));
        } else {
            assert(split_on(s, sep)[0] == first);
            assert(t.subrange(0, first.len() as int) =~= s.subrange(0, first.len() as int));
        }
    }
}

/// The last piece of a split is an end of the text.
pub proof fn lemma_last_piece_is_suffix(s: Seq<char>, sep: char)
    ensures
        split_on(s, sep).len() >= 1,
        split_on(s, sep).last().len() <= s.len(),
        split_on(s, sep).len() >= 2 ==> split_on(s, sep).last().len() < s.len(),
    decreases s.len(),
{
    if s.len() > 0 {
        lemma_last_piece_is_suffix(s.drop_last(), sep);
    }
}

fn dnf_line(line: &Vec<char>) -> (r: Option<Vec<char>>)
    ensures
        match r {
            Some(x) => dnf_entry(line@) == Some(x@),
            None => dnf_entry(line@) is None,
        },
{
    if line.len() == 0 || line[0] == '#' {
        return None;
    }
    let fields = words(line);
    assert(rows(fields@).len() == fields@.len());
    if fields.len() < 3 {
        return None;
    }
    let first = &fields[0];
    assert(rows(fields@)[0] == first@);
    let parts = split(first, '.');
    assert(rows(parts@).len() == parts@.len());
    if parts.len() <= 1 {
        Some(slice(first, 0, first.len()))
    } else {
        let last = &parts[parts.len() - 1];
        assert(rows(parts@).last() == last@);
        proof {
            lemma_last_piece_is_suffix(first@, '.');
        }
        Some(slice(first, 0, first.len() - last.len() - 1))
    }
}

fn pacman_line(line: &Vec<char>) -> (r: Option<Vec<char>>)
    ensures
        match r {
            Some(x) => pacman_entry(line@) == Some(x@),
            None => pacman_entry(line@) is None,
        },
{
    let fields = words(line);
    assert(rows(fields@).len() == fields@.len());
    if fields.len() == 0 {
        None
    } else {
        assert(rows(fields@)[0] == fields@[0]@);
        Some(slice(&fields[0], 0, fields[0].len()))
    }
}

impl UpdateChecker for AptChecker {
    open spec fn command_spec(&self) -> (Seq<char>, Seq<Seq<char>>) {
        ("apt"@, seq!["list"@, "--upgradable"@])
    }

    open spec fn updates_spec(&self, output: Seq<char>) -> Seq<Seq<char>> {
        apt_updates(output)
    }

    fn check_command(&self) -> (r: (&'static str, Vec<&'static str>)) {
        let mut args: Vec<&'static str> = Vec::new();
        args.push("list");
        args.push("--upgradable");
        assert(slices(args@) =~= seq!["list"@, "--upgradable"@]);
        ("apt", args)
    }

    fn parse_updates(&self, output: &str) -> (r: Vec<String>) {
        let raw = to_chars(output);
        let all = lines(&raw);
        let mut found: Vec<Vec<char>> = Vec::new();
        assert(rows(all@).len() == all@.len());
        if all.len() == 0 {
            assert(rows(found@) =~= Seq::<Seq<char>>::empty());
            return to_strings(&found);
        }
        let ghost body = rows(all@).subrange(1, all@.len() as int);
        let mut i: usize = 1;
        assert(body.subrange(0, 0) =~= Seq::<Seq<char>>::empty());
        assert(rows(found@) =~= Seq::<Seq<char>>::empty());
        while i < all.len()
            invariant
                1 <= i <= all.len(),
                body == rows(all@).subrange(1, all@.len() as int),
                rows(found@) == body.subrange(0, i - 1).filter_map(apt_rule()),
            decreases all.len() - i,
        {
            proof {
                lemma_filter_map_step(body, i - 1, apt_rule());
            }
            assert(body[i - 1] == all@[i as int]@);
            match apt_line(&all[i]) {
                Some(x) => {
                    push_row(&mut found, x);
                },
                None => {},
            }
            i += 1;
        }
        assert(body.subrange(0, body.len() as int) =~= body);
        to_strings(&found)
    }
}

impl UpdateChecker for DnfChecker {
    open spec fn command_spec(&self) -> (Seq<char>, Seq<Seq<char>>) {
        ("/usr/bin/dnf"@, seq!["check-update"@, "--quiet"@, "--cacheonly"@])
    }

    open spec fn updates_spec(&self, output: Seq<char>) -> Seq<Seq<char>> {
        dnf_updates(output)
    }

    fn check_command(&self) -> (r: (&'static str, Vec<&'static str>)) {
        let mut args: Vec<&'static str> = Vec::new();
        args.push("check-update");
        args.push("--quiet");
        args.push("--cacheonly");
        assert(slices(args@) =~= seq!["check-update"@, "--quiet"@, "--cacheonly"@]);
        ("/usr/bin/dnf", args)
    }

    fn parse_updates(&self, output: &str) -> (r: Vec<String>) {
        let raw = to_chars(output);
        let all = lines(&raw);
        let mut found: Vec<Vec<char>> = Vec::new();
        let mut i: usize = 0;
        assert(rows(all@).subrange(0, 0) =~= Seq::<Seq<char>>::empty());
        assert(rows(found@) =~= Seq::<Seq<char>>::empty());
        while i < all.len()
            invariant
                i <= all.len(),
                rows(found@) == rows(all@).subrange(0, i as int).filter_map(dnf_rule()),
            decreases all.len() - i,
        {
            proof {
                lemma_filter_map_step(rows(all@), i as int, dnf_rule());
            }
            match dnf_line(&all[i]) {
                Some(x) => {
                    push_row(&mut found, x);
                },
                None => {},
            }
            i += 1;
        }
        assert(rows(all@).subrange(0, all@.len() as int) =~= rows(all@));
        to_strings(&found)
    }
}

impl UpdateChecker for PacmanChecker {
    open spec fn command_spec(&self) -> (Seq<char>, Seq<Seq<char>>) {
        ("/usr/bin/checkupdates"@, Seq::<Seq<char>>::empty())
    }

    open spec fn updates_spec(&self, output: Seq<char>) -> Seq<Seq<char>> {
        pacman_updates(output)
    }

    fn check_command(&self) -> (r: (&'static str, Vec<&'static str>)) {
        let args: Vec<&'static str> = Vec::new();
        assert(slices(args@) =~= Seq::<Seq<char>>::empty());
        ("/usr/bin/checkupdates", args)
    }

    fn parse_updates(&self, output: &str) -> (r: Vec<String>) {
        let raw = to_chars(output);
        let all = lines(&raw);
        let mut found: Vec<Vec<char>> = Vec::new();
        let mut i: usize = 0;
        assert(rows(all@).subrange(0, 0) =~= Seq::<Seq<char>>::empty());
        assert(rows(found@) =~= Seq::<Seq<char>>::empty());
        while i < all.len()
            invariant
                i <= all.len(),
                rows(found@) == rows(all@).subrange(0, i as int).filter_map(pacman_rule()),
            decreases all.len() - i,
        {
            proof {
                lemma_filter_map_step(rows(all@), i as int, pacman_rule());
            }
            match pacman_line(&all[i]) {
                Some(x) => {
                    push_row(&mut found, x);
                },
                None => {},
            }
            i += 1;
        }
        assert(rows(all@).subrange(0, all@.len() as int) =~= rows(all@));
        to_strings(&found)
    }
}

/// The checker of one of the supported package managers.
pub enum Checker {
    Apt(AptChecker),
    Dnf(DnfChecker),
    Pacman(PacmanChecker),
}

impl Checker {
    /// The package manager that this checker is for.
    pub open spec fn manager(self) -> PackageManager {
        match self {
            Checker::Apt(_) => PackageManager::Apt,
            Checker::Dnf(_) => PackageManager::Dnf,
            Checker::Pacman(_) => PackageManager::Pacman,
        }
    }
}

impl UpdateChecker for Checker {
    open spec fn command_spec(&self) -> (Seq<char>, Seq<Seq<char>>) {
        checker_command(self.manager())
    }

    open spec fn updates_spec(&self, output: Seq<char>) -> Seq<Seq<char>> {
        checker_updates(self.manager(), output)
    }

    fn check_command(&self) -> (r: (&'static str, Vec<&'static str>)) {
        match self {
            Checker::Apt(c) => c.check_command(),
            Checker::Dnf(c) => c.check_command(),
            Checker::Pacman(c) => c.check_command(),
        }
    }

    fn parse_updates(&self, output: &str) -> (r: Vec<String>) {
        match self {
            Checker::Apt(c) => c.parse_updates(output),
            Checker::Dnf(c) => c.parse_updates(output),
            Checker::Pacman(c) => c.parse_updates(output),
        }
    }
}

/// Factory function to get the appropriate checker for a package manager.
pub fn get_checker(pm: &PackageManager) -> (r: Checker)
    ensures
        r.manager() == *pm,
{
    match pm {
        PackageManager::Apt => Checker::Apt(AptChecker),
        PackageManager::Dnf => Checker::Dnf(DnfChecker),
        PackageManager::Pacman => Checker::Pacman(PacmanChecker),
    }
}

/// The check command of each package manager.
pub open spec fn checker_command(pm: PackageManager) -> (Seq<char>, Seq<Seq<char>>) {
    match pm {
        PackageManager::Apt => ("apt"@, seq!["list"@, "--upgradable"@]),
        PackageManager::Dnf => ("/usr/bin/dnf"@, seq!["check-update"@, "--quiet"@, "--cacheonly"@]),
        PackageManager::Pacman => ("/usr/bin/checkupdates"@, Seq::<Seq<char>>::empty()),
    }
}

/// The updates that each package manager's check output reports.
pub open spec fn checker_updates(pm: PackageManager, output: Seq<char>) -> Seq<Seq<char>> {
    match pm {
        PackageManager::Apt => apt_updates(output),
        PackageManager::Dnf => dnf_updates(output),
        PackageManager::Pacman => pacman_updates(output),
    }
}

} // verus!

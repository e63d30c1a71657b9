//! The Docker health sampler: which containers are looked at, what a stats
//! frame says of CPU and memory, and what makes a container problematic.
//!
//! Percentages are held exactly, as fractions; nothing here rounds before a
//! number is shown or compared.

use crate::cleanup::{short_id, short_id_of};
use crate::numbers::{decimal, digit_char, push_count, push_wide_decimal};
use crate::sizes::rounded_quotient;
use crate::text::{from_chars, is_text, push_all, push_str, slice, to_chars, trim, trimmed};
use crate::tokens::{
    append_rows,
    from_strings,
    join,
    join_with,
    lemma_filter_map_step,
    push_row,
    rows,
    texts,
    words,
    words_of,
};
use vstd::prelude::*;

verus! {

// ---------------------------------------------------------------------------
// The ignore set
// ---------------------------------------------------------------------------

/// What `str::to_lowercase` of std gives for a text: its lower-case
/// equivalent by the Unicode case mappings.
pub uninterp spec fn unicode_lowercase(s: Seq<char>) -> Seq<char>;

/// `str::to_lowercase` of std.
#[verifier::external_body]
fn lowercase(s: &str) -> (r: String)
    ensures
        r@ == unicode_lowercase(s@),
{
    s.to_lowercase()
}

/// What a pattern adds to the ignore set: itself trimmed and in lower case,
/// or nothing where it is blank.
pub open spec fn ignore_entry(pattern: Seq<char>) -> Option<Seq<char>> {
    if trimmed(pattern).len() == 0 {
        None
    } else {
        Some(unicode_lowercase(trimmed(pattern)))
    }
}

pub open spec fn ignore_rule() -> spec_fn(Seq<char>) -> Option<Seq<char>> {
    |pattern: Seq<char>| ignore_entry(pattern)
}

/// `s` with every comma written as a space.
pub open spec fn commas_as_blanks(s: Seq<char>) -> Seq<char> {
    Seq::new(s.len(), |i: int| if s[i] == ',' {
        ' '
    } else {
        s[i]
    })
}

/// The patterns of a configured ignore list: its entries are separated by
/// commas or blanks.
pub open spec fn configured_patterns(raw: Option<Seq<char>>) -> Seq<Seq<char>> {
    match raw {
        Some(text) => words_of(commas_as_blanks(text)),
        None => Seq::<Seq<char>>::empty(),
    }
}

/// The ignore set: the entries of the patterns given on the command line,
/// then those of the configured list.
pub open spec fn ignore_set_spec(cli: Seq<Seq<char>>, raw: Option<Seq<char>>) -> Seq<Seq<char>> {
    cli.filter_map(ignore_rule()) + configured_patterns(raw).filter_map(ignore_rule())
}

fn add_entries(set: &mut Vec<Vec<char>>, patterns: &Vec<Vec<char>>)
    ensures
        rows(final(set)@) == rows(old(set)@) + rows(patterns@).filter_map(ignore_rule()),
{
    let ghost start = rows(set@);
    let mut i: usize = 0;
    assert(rows(patterns@).subrange(0, 0) =~= Seq::<Seq<char>>::empty());
    assert(start + Seq::<Seq<char>>::empty() =~= start);
    while i < patterns.len()
        invariant
            i <= patterns.len(),
            rows(set@) == start + rows(patterns@).subrange(0, i as int).filter_map(ignore_rule()),
        decreases patterns.len() - i,
    {
        proof {
            lemma_filter_map_step(rows(patterns@), i as int, ignore_rule());
        }
        let t = trim(&patterns[i]);
        if t.len() > 0 {
            let text = from_chars(&t);
            let low = lowercase(text.as_str());
            let entry = to_chars(low.as_str());
            assert(start + rows(patterns@).subrange(0, i as int).filter_map(ignore_rule()).push(
                entry@,
            ) =~= (start + rows(patterns@).subrange(0, i as int).filter_map(ignore_rule())).push(
                entry@,
            ));
            push_row(set, entry);
        }
        i += 1;
    }
    assert(rows(patterns@).subrange(0, patterns@.len() as int) =~= rows(patterns@));
}

/// Builds the ignore set from the patterns given on the command line and
/// from the configured list, if there is one.
pub fn build_ignore_set(cli_patterns: &Vec<String>, configured: Option<&str>) -> (r: Vec<String>)
    ensures
        texts(r@) == ignore_set_spec(
            texts(cli_patterns@),
            match configured {
                Some(c) => Some(c@),
                None => None,
            },
        ),
{
    let mut set: Vec<Vec<char>> = Vec::new();
    assert(rows(set@) =~= Seq::<Seq<char>>::empty());
    let cli = from_strings(cli_patterns);
    add_entries(&mut set, &cli);
    assert(Seq::<Seq<char>>::empty() + texts(cli_patterns@).filter_map(ignore_rule()) =~= texts(
        cli_patterns@,
    ).filter_map(ignore_rule()));
    match configured {
        Some(c) => {
            let raw = to_chars(c);
            let mut blanked: Vec<char> = Vec::new();
            let mut i: usize = 0;
            while i < raw.len()
                invariant
                    i <= raw.len(),
                    blanked@ =~= commas_as_blanks(raw@).subrange(0, i as int),
                decreases raw.len() - i,
            {
                if raw[i] == ',' {
                    blanked.push(' ');
                } else {
                    blanked.push(raw[i]);
                }
                i += 1;
            }
            assert(blanked@ =~= commas_as_blanks(raw@));
            let entries = words(&blanked);
            add_entries(&mut set, &entries);
        },
        None => {
            assert(Seq::<Seq<char>>::empty().filter_map(ignore_rule()) =~= Seq::<
                Seq<char>,
            >::empty());
            assert(rows(set@) + Seq::<Seq<char>>::empty() =~= rows(set@));
        },
    }
    crate::tokens::to_strings(&set)
}

/// Whether an identifier, once trimmed and in lower case, is in the set.
pub open spec fn names_entry(ignore: Seq<Seq<char>>, identifier: Seq<char>) -> bool {
    trimmed(identifier).len() > 0 && ignore.contains(unicode_lowercase(trimmed(identifier)))
}

/// Whether a container is ignored: the set names it by its name, its full
/// id, its short id if it has one, or its compose service.
pub open spec fn should_ignore_spec(
    ignore: Seq<Seq<char>>,
    name: Seq<char>,
    id: Seq<char>,
    short: Seq<char>,
    service: Option<Seq<char>>,
) -> bool {
    ignore.len() > 0 && (names_entry(ignore, name) || names_entry(ignore, id) || (short.len() > 0
        && names_entry(ignore, short)) || (service is Some && names_entry(ignore, service->0)))
}

/// Whether the set holds `entry` as it is.
pub fn set_holds(ignore: &Vec<String>, entry: &str) -> (r: bool)
    ensures
        r == texts(ignore@).contains(entry@),
{
    let e = to_chars(entry);
    let mut i: usize = 0;
    while i < ignore.len()
        invariant
            i <= ignore.len(),
            e@ == entry@,
            forall|k: int| 0 <= k < i ==> texts(ignore@)[k] != entry@,
        decreases ignore.len() - i,
    {
        if is_text(&e, ignore[i].as_str()) {
            assert(texts(ignore@)[i as int] == entry@);
            return true;
        }
        i += 1;
    }
    false
}

fn names(ignore: &Vec<String>, identifier: &str) -> (r: bool)
    ensures
        r == names_entry(texts(ignore@), identifier@),
{
    let raw = to_chars(identifier);
    let t = trim(&raw);
    if t.len() == 0 {
        return false;
    }
    let text = from_chars(&t);
    let low = lowercase(text.as_str());
    set_holds(ignore, low.as_str())
}

pub fn should_ignore(
    ignore: &Vec<String>,
    name: &str,
    id: &str,
    short_id: &str,
    service: Option<&str>,
) -> (r: bool)
    ensures
        r == should_ignore_spec(
            texts(ignore@),
            name@,
            id@,
            short_id@,
            match service {
                Some(s) => Some(s@),
                None => None,
            },
        ),
        texts(ignore@).len() > 0 && short_id@.len() > 0 && names_entry(texts(ignore@), short_id@)
            ==> r,
{
    if ignore.len() == 0 {
        return false;
    }
    assert(texts(ignore@).len() == ignore@.len());
    if names(ignore, name) || names(ignore, id) {
        return true;
    }
    if short_id.unicode_len() > 0 && names(ignore, short_id) {
        return true;
    }
    match service {
        Some(s) => names(ignore, s),
        None => false,
    }
}

// ---------------------------------------------------------------------------
// Percentages
// ---------------------------------------------------------------------------

/// A percentage held exactly: `100 * num / den` percent, or its negative.
#[derive(Debug, Clone, Copy, PartialEq, Eq, Structural)]
pub struct Percent {
    pub negative: bool,
    pub num: u128,
    pub den: u64,
}

/// A warning threshold, in hundredths of a percent.
#[derive(Debug, Clone, Copy, PartialEq, Eq, Structural)]
pub struct Threshold {
    pub hundredths: u32,
}

impl Percent {
    /// A percentage that this module can show and compare without overflow.
    pub open spec fn wf(self) -> bool {
        self.den > 0 && self.num < 0x1_0000_0000_0000_0000_0000_0000
    }

    /// The percentage in tenths of a percent, rounded half to even, without
    /// its sign.
    pub open spec fn tenths(self) -> nat {
        rounded_quotient(self.num as nat * 1000, self.den as nat)
    }

    /// The percentage with one decimal, as reports show it.
    pub open spec fn text(self) -> Seq<char> {
        (if self.negative {
            "-"@
        } else {
            ""@
        }) + decimal(self.tenths() / 10) + "."@ + seq![digit_char(self.tenths() % 10)]
    }

    /// Whether the percentage is above a threshold.
    pub open spec fn above(self, th: Threshold) -> bool {
        !self.negative && self.num as nat * 10000 > th.hundredths as nat * self.den as nat
    }

    pub fn is_above(&self, th: Threshold) -> (r: bool)
        requires
            self.wf(),
        ensures
            r == self.above(th),
    {
        if self.negative {
            return false;
        }
        assert(self.num * 10000 < 0x1_0000_0000_0000_0000_0000_0000 * 10000);
        let left: u128 = self.num * 10000;
        assert(th.hundredths as u128 * (self.den as u128) <= 0xffff_ffff * 0xffff_ffff_ffff_ffff)
            by (nonlinear_arith)
            requires
                th.hundredths <= 0xffff_ffff,
                self.den <= 0xffff_ffff_ffff_ffff,
        ;
        let right: u128 = th.hundredths as u128 * (self.den as u128);
        left > right
    }

    /// Appends the percentage with one decimal to `out`.
    pub fn push_text(&self, out: &mut Vec<char>)
        requires
            self.wf(),
        ensures
            final(out)@ == old(out)@ + self.text(),
    {
        let n: u128 = self.num * 1000;
        let d: u128 = self.den as u128;
        let q = n / d;
        let m = n % d;
        let t: u128 = if 2 * m < d || (2 * m == d && q % 2 == 0) {
            q
        } else {
            q + 1
        };
        assert(t == self.tenths());
        let whole: u128 = t / 10;
        let frac: u8 = (t % 10) as u8;
        let mut piece: Vec<char> = Vec::new();
        if self.negative {
            push_str(&mut piece, "-");
        } else {
            push_str(&mut piece, "");
        }
        push_wide_decimal(&mut piece, whole);
        push_str(&mut piece, ".");
        piece.push((48 + frac) as char);
        assert(piece@ =~= self.text());
        push_all(out, &piece);
    }
}

impl Threshold {
    /// The threshold in whole percents, rounded half to even.
    pub open spec fn whole(self) -> nat {
        rounded_quotient(self.hundredths as nat, 100)
    }

    pub fn whole_percent(&self) -> (r: u64)
        ensures
            r == self.whole(),
    {
        let q = self.hundredths / 100;
        let m = self.hundredths % 100;
        if 2 * m < 100 || (2 * m == 100 && q % 2 == 0) {
            q as u64
        } else {
            q as u64 + 1
        }
    }
}

// ---------------------------------------------------------------------------
// Stats frames
// ---------------------------------------------------------------------------

/// One stats frame of a container, as sampled once.
#[derive(Debug, Clone, Copy, PartialEq, Eq, Structural)]
pub struct StatsFrame {
    pub total_usage: u64,
    pub pre_total_usage: u64,
    pub system_cpu_usage: Option<u64>,
    pub pre_system_cpu_usage: Option<u64>,
    pub online_cpus: Option<u32>,
    /// The length of the per-CPU usage vector, where the frame has one.
    pub percpu_count: Option<u32>,
    pub memory_usage: Option<u64>,
    pub memory_limit: Option<u64>,
}

impl StatsFrame {
    /// The CPUs that the usage is spread over: the frame's count of online
    /// CPUs, else the length of its per-CPU vector, else 1.
    pub open spec fn cpus(self) -> u32 {
        match self.online_cpus {
            Some(n) => n,
            None => match self.percpu_count {
                Some(n) => n,
                None => 1,
            },
        }
    }

    /// Whether the CPU percentage is known: both system values are there
    /// and the system counter has advanced.
    pub open spec fn cpu_known(self) -> bool {
        self.system_cpu_usage is Some && self.pre_system_cpu_usage is Some
            && self.system_cpu_usage->0 > self.pre_system_cpu_usage->0
    }

    /// The CPU percentage: the container's share of the system's CPU time
    /// between the two readings, times the number of CPUs.
    pub open spec fn cpu_spec(self) -> Option<Percent> {
        if self.cpu_known() {
            Some(
                Percent {
                    negative: self.total_usage < self.pre_total_usage,
                    num: ((if self.total_usage < self.pre_total_usage {
                        self.pre_total_usage - self.total_usage
                    } else {
                        self.total_usage - self.pre_total_usage
                    }) * self.cpus()) as u128,
                    den: (self.system_cpu_usage->0 - self.pre_system_cpu_usage->0) as u64,
                },
            )
        } else {
            None
        }
    }

    /// The memory percentage: usage out of limit, where both are there and
    /// the limit is not zero.
    pub open spec fn memory_spec(self) -> Option<Percent> {
        if self.memory_usage is Some && self.memory_limit is Some && self.memory_limit->0 > 0 {
            Some(
                Percent {
                    negative: false,
                    num: self.memory_usage->0 as u128,
                    den: self.memory_limit->0,
                },
            )
        } else {
            None
        }
    }

    pub fn cpu_percent(&self) -> (r: Option<Percent>)
        ensures
            r == self.cpu_spec(),
            r is None <==> !self.cpu_known(),
            r matches Some(p) ==> p.wf(),
    {
        match (self.system_cpu_usage, self.pre_system_cpu_usage) {
            (Some(system), Some(pre_system)) => {
                if system > pre_system {
                    let negative = self.total_usage < self.pre_total_usage;
                    let delta: u64 = if negative {
                        self.pre_total_usage - self.total_usage
                    } else {
                        self.total_usage - self.pre_total_usage
                    };
                    let cpus: u32 = match self.online_cpus {
                        Some(n) => n,
                        None => match self.percpu_count {
                            Some(n) => n,
                            None => 1,
                        },
                    };
                    assert(delta as u128 * (cpus as u128) < 0x1_0000_0000_0000_0000_0000_0000)
                        by (nonlinear_arith)
                        requires
                            delta <= 0xffff_ffff_ffff_ffff,
                            cpus <= 0xffff_ffff,
                    ;
                    Some(
                        Percent {
                            negative,
                            num: delta as u128 * (cpus as u128),
                            den: system - pre_system,
                        },
                    )
                } else {
                    None
                }
            },
            _ => None,
        }
    }

    pub fn memory_percent(&self) -> (r: Option<Percent>)
        ensures
            r == self.memory_spec(),
            r matches Some(p) ==> p.wf(),
    {
        match (self.memory_usage, self.memory_limit) {
            (Some(usage), Some(limit)) => {
                if limit > 0 {
                    Some(Percent { negative: false, num: usage as u128, den: limit })
                } else {
                    None
                }
            },
            _ => None,
        }
    }
}

// ---------------------------------------------------------------------------
// Verdicts
// ---------------------------------------------------------------------------

/// The health state that a container reports.
#[derive(Debug, Clone, Copy, PartialEq, Eq, Structural)]
pub enum HealthState {
    Healthy,
    Unhealthy,
    Starting,
    /// No health check is configured: the state that Docker calls `none`.
    Unchecked,
}

impl HealthState {
    pub open spec fn text(self) -> Seq<char> {
        match self {
            HealthState::Healthy => "healthy"@,
            HealthState::Unhealthy => "unhealthy"@,
            HealthState::Starting => "starting"@,
            HealthState::Unchecked => "none"@,
        }
    }

    pub fn as_str(&self) -> (r: &'static str)
        ensures
            r@ == self.text(),
    {
        match self {
            HealthState::Healthy => "healthy",
            HealthState::Unhealthy => "unhealthy",
            HealthState::Starting => "starting",
            HealthState::Unchecked => "none",
        }
    }
}

/// What is known of a container once it was inspected and sampled.
#[derive(Debug, Clone)]
pub struct ContainerObservation {
    pub name: String,
    pub short_id: String,
    pub running: bool,
    pub health: HealthState,
    /// `None` where no stats frame came in time.
    pub stats: Option<StatsFrame>,
}

/// The warning thresholds of a health check; a missing one is not checked.
#[derive(Debug, Clone, Copy, PartialEq, Eq, Structural)]
pub struct HealthThresholds {
    pub cpu: Option<Threshold>,
    pub memory: Option<Threshold>,
}

pub open spec fn cpu_of(o: ContainerObservation) -> Option<Percent> {
    match o.stats {
        Some(f) => f.cpu_spec(),
        None => None,
    }
}

pub open spec fn memory_of(o: ContainerObservation) -> Option<Percent> {
    match o.stats {
        Some(f) => f.memory_spec(),
        None => None,
    }
}

pub open spec fn over(p: Option<Percent>, th: Option<Threshold>) -> bool {
    p is Some && th is Some && p->0.above(th->0)
}

/// A container is problematic when it is not running, when its health is
/// neither healthy nor none, or when its CPU or memory percentage is above
/// the threshold.
pub open spec fn is_problematic(o: ContainerObservation, th: HealthThresholds) -> bool {
    ||| !o.running
    ||| !(o.health is Healthy || o.health is Unchecked)
    ||| over(cpu_of(o), th.cpu)
    ||| over(memory_of(o), th.memory)
}

/// The line that reports a problematic container: its name and short id,
/// the percentages that are known, its state, and its health unless that is
/// none.
pub open spec fn issue_line(o: ContainerObservation) -> Seq<char> {
    let so_far0 = seq![o.name@ + " ("@ + o.short_id@ + ")"@];
    let so_far1 = match cpu_of(o) {
        Some(p) => so_far0.push("CPU "@ + p.text() + "%"@),
        None => so_far0,
    };
    let so_far2 = match memory_of(o) {
        Some(p) => so_far1.push("MEM "@ + p.text() + "%"@),
        None => so_far1,
    };
    let so_far3 = so_far2.push(
        "state: "@ + (if o.running {
            "running"@
        } else {
            "exited"@
        }),
    );
    let so_far4 = if o.health is Unchecked {
        so_far3
    } else {
        so_far3.push("health: "@ + o.health.text())
    };
    join_with(so_far4, " | "@)
}

/// What the check says of a container: nothing where it is fine, its issue
/// line where it is problematic.
pub open spec fn verdict_spec(o: ContainerObservation, th: HealthThresholds) -> Option<Seq<char>> {
    if is_problematic(o, th) {
        Some(issue_line(o))
    } else {
        None
    }
}

/// Judges one container.
pub fn evaluate_container(o: &ContainerObservation, th: &HealthThresholds) -> (r: Option<String>)
    ensures
        match r {
            Some(line) => verdict_spec(*o, *th) == Some(line@),
            None => verdict_spec(*o, *th) is None,
        },
        cpu_of(*o) is Some <==> (o.stats is Some && o.stats->0.cpu_known()),
{
    let cpu = match &o.stats {
        Some(f) => f.cpu_percent(),
        None => None,
    };
    let mem = match &o.stats {
        Some(f) => f.memory_percent(),
        None => None,
    };
    let mut bad = !o.running;
    match o.health {
        HealthState::Healthy => {},
        HealthState::Unchecked => {},
        _ => {
            bad = true;
        },
    }
    match (th.cpu, cpu) {
        (Some(t), Some(p)) => {
            if p.is_above(t) {
                bad = true;
            }
        },
        _ => {},
    }
    match (th.memory, mem) {
        (Some(t), Some(p)) => {
            if p.is_above(t) {
                bad = true;
            }
        },
        _ => {},
    }
    assert(bad == is_problematic(*o, *th));
    if !bad {
        return None;
    }
    let mut parts: Vec<Vec<char>> = Vec::new();
    let mut first = to_chars(o.name.as_str());
    push_str(&mut first, " (");
    push_str(&mut first, o.short_id.as_str());
    push_str(&mut first, ")");
    let ghost f = first@;
    parts.push(first);
    assert(rows(parts@) =~= seq![f]);
    match cpu {
        Some(p) => {
            let mut part = to_chars("CPU ");
            p.push_text(&mut part);
            push_str(&mut part, "%");
            push_row(&mut parts, part);
        },
        None => {},
    }
    match mem {
        Some(p) => {
            let mut part = to_chars("MEM ");
            p.push_text(&mut part);
            push_str(&mut part, "%");
            push_row(&mut parts, part);
        },
        None => {},
    }
    let mut state = to_chars("state: ");
    let mut word: Vec<char> = Vec::new();
    if o.running {
        push_str(&mut word, "running");
        assert(word@ =~= "running"@);
    } else {
        push_str(&mut word, "exited");
        assert(word@ =~= "exited"@);
    }
    push_all(&mut state, &word);
    push_row(&mut parts, state);
    match o.health {
        HealthState::Unchecked => {},
        _ => {
            let mut part = to_chars("health: ");
            push_str(&mut part, o.health.as_str());
            push_row(&mut parts, part);
        },
    }
    let line = join(&parts, " | ");
    Some(from_chars(&line))
}

/// The outcome of a health check.
pub struct HealthReport {
    pub title: String,
    pub body: String,
    /// Whether the outcome is to be sent, not only shown.
    pub notify: bool,
}

/// The body of the outcome: that all is well and how many containers were
/// checked, or how many issues there are and each of them.
pub open spec fn health_body(issues: Seq<Seq<char>>, ok_count: nat) -> Seq<char> {
    if issues.len() == 0 {
        "All containers OK ("@ + decimal(ok_count) + " checked)"@
    } else {
        join_with(seq![decimal(issues.len()) + " issue(s) detected"@] + issues, "\n"@)
    }
}

pub open spec fn health_title(issues: Seq<Seq<char>>) -> Seq<char> {
    if issues.len() == 0 {
        "Docker Health: OK"@
    } else {
        "Docker Health: Issues"@
    }
}

/// Sums a check up: issues are always sent; an outcome without issues is
/// sent only where that was asked for.
pub fn health_report(issues: &Vec<String>, ok_count: usize, notify_always: bool) -> (r:
    HealthReport)
    ensures
        r.title@ == health_title(texts(issues@)),
        r.body@ == health_body(texts(issues@), ok_count as nat),
        r.notify == (notify_always || issues@.len() > 0),
{
    if issues.len() == 0 {
        let mut body = to_chars("All containers OK (");
        push_count(&mut body, ok_count);
        push_str(&mut body, " checked)");
        HealthReport {
            title: "Docker Health: OK".to_string(),
            body: from_chars(&body),
            notify: notify_always,
        }
    } else {
        let mut head: Vec<char> = Vec::new();
        push_count(&mut head, issues.len());
        push_str(&mut head, " issue(s) detected");
        assert(head@ =~= decimal(issues@.len()) + " issue(s) detected"@);
        let mut lines: Vec<Vec<char>> = Vec::new();
        let ghost h = head@;
        lines.push(head);
        assert(rows(lines@) =~= seq![h]);
        append_rows(&mut lines, from_strings(issues));
        let body = join(&lines, "\n");
        HealthReport {
            title: "Docker Health: Issues".to_string(),
            body: from_chars(&body),
            notify: true,
        }
    }
}

/// `s` without its leading slashes.
pub open spec fn without_leading_slashes(s: Seq<char>) -> Seq<char>
    decreases s.len(),
{
    if s.len() > 0 && s[0] == '/' {
        without_leading_slashes(s.drop_first())
    } else {
        s
    }
}

pub fn strip_leading_slashes(v: &Vec<char>) -> (r: Vec<char>)
    ensures
        r@ == without_leading_slashes(v@),
{
    let mut i: usize = 0;
    assert(v@.subrange(0, v@.len() as int) =~= v@);
    while i < v.len() && v[i] == '/'
        invariant
            i <= v.len(),
            without_leading_slashes(v@) == without_leading_slashes(
                v@.subrange(i as int, v@.len() as int),
            ),
        decreases v.len() - i,
    {
        assert(v@.subrange(i as int, v@.len() as int).drop_first() =~= v@.subrange(
            i + 1,
            v@.len() as int,
        ));
        i += 1;
    }
    slice(v, i, v.len())
}

/// The name a container goes by: its first name without leading slashes,
/// or its short id where it has no name.
pub open spec fn container_name_spec(names: Option<Seq<Seq<char>>>, id: Seq<char>) -> Seq<char> {
    match names {
        Some(n) => if n.len() > 0 {
            without_leading_slashes(n[0])
        } else {
            short_id(id)
        },
        None => short_id(id),
    }
}

pub fn container_name(names: &Option<Vec<String>>, id: &str) -> (r: String)
    ensures
        r@ == container_name_spec(
            match *names {
                Some(n) => Some(texts(n@)),
                None => None,
            },
            id@,
        ),
{
    match names {
        Some(n) => {
            if n.len() > 0 {
                let first = to_chars(n[0].as_str());
                assert(texts(n@)[0] == n@[0]@);
                return from_chars(&strip_leading_slashes(&first));
            }
        },
        None => {},
    }
    let raw = to_chars(id);
    from_chars(&short_id_of(&raw))
}

/// The short id of a container: the first twelve characters of its id.
pub fn container_short_id(id: &str) -> (r: String)
    ensures
        r@ == short_id(id@),
{
    let raw = to_chars(id);
    from_chars(&short_id_of(&raw))
}

/// Whether the ignore set names a container, by its name, its id, the first
/// twelve characters of its id, or its compose service.
pub fn container_is_ignored(
    ignore: &Vec<String>,
    names: &Option<Vec<String>>,
    id: &str,
    service: Option<&str>,
) -> (r: bool)
    ensures
        r == should_ignore_spec(
            texts(ignore@),
            container_name_spec(
                match *names {
                    Some(n) => Some(texts(n@)),
                    None => None,
                },
                id@,
            ),
            id@,
            short_id(id@),
            match service {
                Some(s) => Some(s@),
                None => None,
            },
        ),
        texts(ignore@).len() > 0 && short_id(id@).len() > 0 && names_entry(
            texts(ignore@),
            short_id(id@),
        ) ==> r,
{
    let name = container_name(names, id);
    let short = container_short_id(id);
    should_ignore(ignore, name.as_str(), id, short.as_str(), service)
}

} // verus!

//! The Docker image updater: which images to pull, which dependent
//! containers to restart, and what to report.
//!
//! Running `docker` is the caller's part; this module gives the commands,
//! reads their output and keeps the tally.

use crate::numbers::{decimal, push_decimal};
use crate::text::{
    contains,
    contains_str,
    eq_ignore_case,
    from_chars,
    has_substring,
    is_text,
    push_str,
    same_ignore_case,
    slice,
    to_chars,
    trim,
    trimmed,
    opt_str,
    trimmed_all,
};
use crate::tokens::{
    join,
    join_with,
    lemma_filter_map_step,
    lines,
    lines_of,
    push_row,
    rows,
    split,
    split_on,
    texts,
    to_strings,
};
use vstd::prelude::*;

verus! {

/// The restart policy where none is configured.
pub const DEFAULT_RESTART_POLICY: &'static str = "all-except-webhook";

/// The name that marks the container of the webhook server.
pub const WEBHOOK_CONTAINER: &'static str = "updatectl_webhook";

/// What a request to update images asks for.
pub enum ImageRequest {
    /// Neither all images nor a list: nothing to do.
    Unspecified,
    /// Every image found on the server.
    All,
    /// These images.
    Listed(Vec<String>),
}

/// Reads a request: all images where that is asked for, else the entries of
/// the comma-separated list, each trimmed, else nothing.
pub fn image_request(all: bool, images: Option<&str>) -> (r: ImageRequest)
    ensures
        all ==> r is All,
        !all && images is None ==> r is Unspecified,
        !all && images is Some ==> (r matches ImageRequest::Listed(v) && texts(v@) == trimmed_all(
            split_on(images->0@, ','),
        )),
{
    if all {
        return ImageRequest::All;
    }
    match images {
        None => ImageRequest::Unspecified,
        Some(list) => {
            let raw = to_chars(list);
            let pieces = split(&raw, ',');
            let mut out: Vec<Vec<char>> = Vec::new();
            let mut i: usize = 0;
            assert(rows(pieces@).len() == pieces@.len());
            while i < pieces.len()
                invariant
                    i <= pieces.len(),
                    rows(out@) =~= trimmed_all(rows(pieces@)).subrange(0, i as int),
                decreases pieces.len() - i,
            {
                let t = trim(&pieces[i]);
                assert(rows(pieces@)[i as int] == pieces@[i as int]@);
                push_row(&mut out, t);
                i += 1;
            }
            assert(trimmed_all(rows(pieces@)).subrange(0, pieces@.len() as int) =~= trimmed_all(
                rows(pieces@),
            ));
            ImageRequest::Listed(to_strings(&out))
        },
    }
}

/// What a line of `docker images` adds to the list: itself trimmed, unless
/// it names an untagged image.
pub open spec fn image_entry(line: Seq<char>) -> Option<Seq<char>> {
    if has_substring(line, "<none>"@) {
        None
    } else {
        Some(trimmed(line))
    }
}

pub open spec fn image_rule() -> spec_fn(Seq<char>) -> Option<Seq<char>> {
    |line: Seq<char>| image_entry(line)
}

/// The images in the output of `docker images --format
/// '{{.Repository}}:{{.Tag}}'`.
pub fn parse_image_list(output: &str) -> (r: Vec<String>)
    ensures
        texts(r@) == lines_of(output@).filter_map(image_rule()),
{
    let raw = to_chars(output);
    let all = lines(&raw);
    let mut found: Vec<Vec<char>> = Vec::new();
    let mut i: usize = 0;
    assert(rows(all@).subrange(0, 0) =~= Seq::<Seq<char>>::empty());
    assert(rows(found@) =~= Seq::<Seq<char>>::empty());
    while i < all.len()
        invariant
            i <= all.len(),
            rows(found@) == rows(all@).subrange(0, i as int).filter_map(image_rule()),
        decreases all.len() - i,
    {
        proof {
            lemma_filter_map_step(rows(all@), i as int, image_rule());
        }
        if !contains_str(&all[i], "<none>") {
            push_row(&mut found, trim(&all[i]));
        }
        i += 1;
    }
    assert(rows(all@).subrange(0, all@.len() as int) =~= rows(all@));
    to_strings(&found)
}

/// What a line of `docker ps --format '{{.Names}}:{{.Image}}'` names: the
/// text before its first colon, trimmed, unless that is empty.
pub open spec fn container_entry(line: Seq<char>) -> Option<Seq<char>> {
    let name = trimmed(split_on(line, ':')[0]);
    if name.len() == 0 {
        None
    } else {
        Some(name)
    }
}

pub open spec fn container_rule() -> spec_fn(Seq<char>) -> Option<Seq<char>> {
    |line: Seq<char>| container_entry(line)
}

/// The containers in the output of `docker ps` with the ancestor filter.
pub fn parse_container_names(output: &str) -> (r: Vec<String>)
    ensures
        texts(r@) == lines_of(output@).filter_map(container_rule()),
{
    let raw = to_chars(output);
    let all = lines(&raw);
    let mut found: Vec<Vec<char>> = Vec::new();
    let mut i: usize = 0;
    assert(rows(all@).subrange(0, 0) =~= Seq::<Seq<char>>::empty());
    assert(rows(found@) =~= Seq::<Seq<char>>::empty());
    while i < all.len()
        invariant
            i <= all.len(),
            rows(found@) == rows(all@).subrange(0, i as int).filter_map(container_rule()),
        decreases all.len() - i,
    {
        proof {
            lemma_filter_map_step(rows(all@), i as int, container_rule());
        }
        let parts = split(&all[i], ':');
        assert(rows(parts@)[0] == parts@[0]@);
        let name = trim(&parts[0]);
        if name.len() > 0 {
            push_row(&mut found, name);
        }
        i += 1;
    }
    assert(rows(all@).subrange(0, all@.len() as int) =~= rows(all@));
    to_strings(&found)
}

/// The arguments of `docker` that list all images.
pub fn list_images_args() -> (r: Vec<String>)
    ensures
        texts(r@) == seq!["images"@, "--format"@, "{{.Repository}}:{{.Tag}}"@],
{
    let mut a: Vec<String> = Vec::new();
    a.push("images".to_string());
    a.push("--format".to_string());
    a.push("{{.Repository}}:{{.Tag}}".to_string());
    assert(texts(a@) =~= seq!["images"@, "--format"@, "{{.Repository}}:{{.Tag}}"@]);
    a
}

/// The arguments of `docker` that pull an image.
pub fn pull_args(image: &str) -> (r: Vec<String>)
    ensures
        texts(r@) == seq!["pull"@, image@],
{
    let mut a: Vec<String> = Vec::new();
    a.push("pull".to_string());
    a.push(image.to_string());
    assert(texts(a@) =~= seq!["pull"@, image@]);
    a
}

/// The arguments of `docker` that list the containers made from an image.
pub fn dependents_args(image: &str) -> (r: Vec<String>)
    ensures
        texts(r@) == seq![
            "ps"@,
            "--format"@,
            "{{.Names}}:{{.Image}}"@,
            "--filter"@,
            "ancestor="@ + image@,
        ],
{
    let mut filter = to_chars("ancestor=");
    push_str(&mut filter, image);
    let mut a: Vec<String> = Vec::new();
    a.push("ps".to_string());
    a.push("--format".to_string());
    a.push("{{.Names}}:{{.Image}}".to_string());
    a.push("--filter".to_string());
    a.push(from_chars(&filter));
    assert(texts(a@) =~= seq![
        "ps"@,
        "--format"@,
        "{{.Names}}:{{.Image}}"@,
        "--filter"@,
        "ancestor="@ + image@,
    ]);
    a
}

/// The arguments of `docker` that restart a container.
pub fn restart_args(container: &str) -> (r: Vec<String>)
    ensures
        texts(r@) == seq!["restart"@, container@],
{
    let mut a: Vec<String> = Vec::new();
    a.push("restart".to_string());
    a.push(container.to_string());
    assert(texts(a@) =~= seq!["restart"@, container@]);
    a
}

// ---------------------------------------------------------------------------
// The restart policy
// ---------------------------------------------------------------------------

/// What a default exclusion entry adds: itself trimmed, unless it is blank.
pub open spec fn default_entry(piece: Seq<char>) -> Option<Seq<char>> {
    if trimmed(piece).len() == 0 {
        None
    } else {
        Some(trimmed(piece))
    }
}

pub open spec fn default_rule() -> spec_fn(Seq<char>) -> Option<Seq<char>> {
    |piece: Seq<char>| default_entry(piece)
}

/// What a `server:container` entry adds for a server: the container part,
/// where the server part names that server, whatever its case.
pub open spec fn specific_entry(piece: Seq<char>, server_name: Seq<char>) -> Option<Seq<char>> {
    let t = trimmed(piece);
    let head = split_on(t, ':')[0];
    if head.len() == t.len() {
        None
    } else if eq_ignore_case(trimmed(head), server_name) {
        Some(trimmed(t.subrange(head.len() as int + 1, t.len() as int)))
    } else {
        None
    }
}

pub open spec fn specific_rule(server_name: Seq<char>) -> spec_fn(Seq<char>) -> Option<
    Seq<char>,
> {
    |piece: Seq<char>| specific_entry(piece, server_name)
}

/// The exclusion list of a server: the default tokens, then the tokens
/// configured for that server.
pub open spec fn exclusions_spec(
    server_name: Seq<char>,
    defaults: Option<Seq<char>>,
    specific: Option<Seq<char>>,
) -> Seq<Seq<char>> {
    (match defaults {
        Some(d) => split_on(d, ',').filter_map(default_rule()),
        None => Seq::<Seq<char>>::empty(),
    }) + (match specific {
        Some(s) => split_on(s, ',').filter_map(specific_rule(server_name)),
        None => Seq::<Seq<char>>::empty(),
    })
}

/// Get container exclusion list for a specific server.
pub fn get_restart_exclusions(server_name: &str, defaults: Option<&str>, specific: Option<&str>) -> (r:
    Vec<String>)
    ensures
        texts(r@) == exclusions_spec(
            server_name@,
            match defaults {
                Some(d) => Some(d@),
                None => None,
            },
            match specific {
                Some(s) => Some(s@),
                None => None,
            },
        ),
{
    let mut out: Vec<Vec<char>> = Vec::new();
    assert(rows(out@) =~= Seq::<Seq<char>>::empty());
    match defaults {
        Some(d) => {
            let raw = to_chars(d);
            let pieces = split(&raw, ',');
            let mut i: usize = 0;
            assert(rows(pieces@).subrange(0, 0) =~= Seq::<Seq<char>>::empty());
            while i < pieces.len()
                invariant
                    i <= pieces.len(),
                    rows(out@) == rows(pieces@).subrange(0, i as int).filter_map(default_rule()),
                decreases pieces.len() - i,
            {
                proof {
                    lemma_filter_map_step(rows(pieces@), i as int, default_rule());
                }
                let t = trim(&pieces[i]);
                if t.len() > 0 {
                    push_row(&mut out, t);
                }
                i += 1;
            }
            assert(rows(pieces@).subrange(0, pieces@.len() as int) =~= rows(pieces@));
        },
        None => {},
    }
    let ghost first = rows(out@);
    let name = to_chars(server_name);
    match specific {
        Some(s) => {
            let raw = to_chars(s);
            let pieces = split(&raw, ',');
            let mut i: usize = 0;
            assert(rows(pieces@).subrange(0, 0) =~= Seq::<Seq<char>>::empty());
            assert(first + Seq::<Seq<char>>::empty() =~= first);
            while i < pieces.len()
                invariant
                    i <= pieces.len(),
                    name@ == server_name@,
                    rows(out@) == first + rows(pieces@).subrange(0, i as int).filter_map(
                        specific_rule(server_name@),
                    ),
                decreases pieces.len() - i,
            {
                proof {
                    lemma_filter_map_step(rows(pieces@), i as int, specific_rule(server_name@));
                }
                let t = trim(&pieces[i]);
                let parts = split(&t, ':');
                assert(rows(parts@)[0] == parts@[0]@);
                let head = &parts[0];
                proof {
                    crate::packages::lemma_first_piece_is_prefix(t@, ':');
                }
                if head.len() != t.len() {
                    let server = trim(head);
                    if same_ignore_case(&server, &name) {
                        let rest = slice(&t, head.len() + 1, t.len());
                        let container = trim(&rest);
                        assert(first + rows(pieces@).subrange(0, i as int).filter_map(
                            specific_rule(server_name@),
                        ).push(container@) =~= (first + rows(pieces@).subrange(
                            0,
                            i as int,
                        ).filter_map(specific_rule(server_name@))).push(container@));
                        push_row(&mut out, container);
                    }
                }
                i += 1;
            }
            assert(rows(pieces@).subrange(0, pieces@.len() as int) =~= rows(pieces@));
        },
        None => {
            assert(first + Seq::<Seq<char>>::empty() =~= first);
        },
    }
    to_strings(&out)
}

/// Whether some exclusion token occurs in the container's name.
pub open spec fn is_excluded(name: Seq<char>, excluded: Seq<Seq<char>>) -> bool {
    exists|i: int| 0 <= i < excluded.len() && has_substring(name, #[trigger] excluded[i])
}

/// Whether a dependent container is restarted: never where it is excluded,
/// never under the policy `none`, and under every other policy unless it is
/// the webhook server's own container.
pub open spec fn should_restart_spec(
    name: Seq<char>,
    policy: Seq<char>,
    excluded: Seq<Seq<char>>,
) -> bool {
    !is_excluded(name, excluded) && policy != "none"@ && !has_substring(
        name,
        "updatectl_webhook"@,
    )
}

/// Check if a container should be restarted based on policy and exclusions.
pub fn should_restart_container(container_name: &str, policy: &str, excluded: &Vec<String>) -> (r:
    bool)
    ensures
        r == should_restart_spec(container_name@, policy@, texts(excluded@)),
{
    let name = to_chars(container_name);
    let mut i: usize = 0;
    while i < excluded.len()
        invariant
            i <= excluded.len(),
            name@ == container_name@,
            forall|k: int| 0 <= k < i ==> !has_substring(name@, #[trigger] texts(excluded@)[k]),
        decreases excluded.len() - i,
    {
        let token = to_chars(excluded[i].as_str());
        if contains(&name, &token) {
            assert(has_substring(name@, texts(excluded@)[i as int]));
            return false;
        }
        i += 1;
    }
    let p = to_chars(policy);
    if is_text(&p, "none") {
        false
    } else {
        !contains_str(&name, "updatectl_webhook")
    }
}

/// Which of the dependent containers are restarted, and how many are not.
pub struct RestartPlan {
    pub to_restart: Vec<String>,
    pub skipped: usize,
}

pub open spec fn restart_entry(
    name: Seq<char>,
    policy: Seq<char>,
    excluded: Seq<Seq<char>>,
) -> Option<Seq<char>> {
    if should_restart_spec(name, policy, excluded) {
        Some(name)
    } else {
        None
    }
}

pub open spec fn restart_rule(policy: Seq<char>, excluded: Seq<Seq<char>>) -> spec_fn(
    Seq<char>,
) -> Option<Seq<char>> {
    |name: Seq<char>| restart_entry(name, policy, excluded)
}

/// Filters the dependent containers through the restart policy.
pub fn restart_plan(containers: &Vec<String>, policy: &str, excluded: &Vec<String>) -> (r:
    RestartPlan)
    ensures
        texts(r.to_restart@) == texts(containers@).filter_map(
            restart_rule(policy@, texts(excluded@)),
        ),
        r.skipped == containers@.len() - r.to_restart@.len(),
{
    let mut keep: Vec<String> = Vec::new();
    let mut i: usize = 0;
    assert(texts(containers@).subrange(0, 0) =~= Seq::<Seq<char>>::empty());
    assert(texts(keep@) =~= Seq::<Seq<char>>::empty());
    while i < containers.len()
        invariant
            i <= containers.len(),
            keep@.len() <= i,
            texts(keep@) == texts(containers@).subrange(0, i as int).filter_map(
                restart_rule(policy@, texts(excluded@)),
            ),
        decreases containers.len() - i,
    {
        proof {
            lemma_filter_map_step(
                texts(containers@),
                i as int,
                restart_rule(policy@, texts(excluded@)),
            );
        }
        if should_restart_container(containers[i].as_str(), policy, excluded) {
            let c = containers[i].clone();
            assert(texts(keep@.push(c)) =~= texts(keep@).push(c@));
            keep.push(c);
        }
        i += 1;
    }
    assert(texts(containers@).subrange(0, containers@.len() as int) =~= texts(containers@));
    let skipped = containers.len() - keep.len();
    RestartPlan { to_restart: keep, skipped }
}

// ---------------------------------------------------------------------------
// The tally and the message
// ---------------------------------------------------------------------------

/// What an update run has done so far.
#[derive(Debug, Clone, Copy, PartialEq, Eq, Structural)]
pub struct UpdateTally {
    pub updated: u64,
    pub failed: u64,
    pub restarted: u64,
    pub restart_failed: u64,
    /// Whether some dependent container was left alone by the policy.
    pub skipped: bool,
}

/// One more, up to the largest count.
pub open spec fn one_more(n: u64) -> u64 {
    if n < u64::MAX {
        (n + 1) as u64
    } else {
        n
    }
}

impl UpdateTally {
    pub fn new() -> (r: Self)
        ensures
            r == (UpdateTally { updated: 0, failed: 0, restarted: 0, restart_failed: 0, skipped: false }),
    {
        UpdateTally { updated: 0, failed: 0, restarted: 0, restart_failed: 0, skipped: false }
    }

    /// Counts a pull: an image updated, or one that failed. Only after a
    /// pull that succeeded are the image's containers looked for.
    pub fn record_pull(&mut self, ok: bool) -> (look_for_containers: bool)
        ensures
            look_for_containers == ok,
            *final(self) == if ok {
                UpdateTally { updated: one_more(old(self).updated), ..*old(self) }
            } else {
                UpdateTally { failed: one_more(old(self).failed), ..*old(self) }
            },
    {
        if ok {
            self.updated = self.updated.saturating_add(1);
        } else {
            self.failed = self.failed.saturating_add(1);
        }
        ok
    }

    /// Notes that a plan left containers alone, if it did.
    pub fn record_plan(&mut self, plan: &RestartPlan)
        ensures
            *final(self) == (UpdateTally {
                skipped: old(self).skipped || plan.skipped > 0,
                ..*old(self)
            }),
    {
        if plan.skipped > 0 {
            self.skipped = true;
        }
    }

    /// Counts a restart: a container restarted, or a restart that failed.
    pub fn record_restart(&mut self, ok: bool)
        ensures
            *final(self) == if ok {
                UpdateTally { restarted: one_more(old(self).restarted), ..*old(self) }
            } else {
                UpdateTally { restart_failed: one_more(old(self).restart_failed), ..*old(self) }
            },
    {
        if ok {
            self.restarted = self.restarted.saturating_add(1);
        } else {
            self.restart_failed = self.restart_failed.saturating_add(1);
        }
    }

    /// The parts of the run's message.
    pub open spec fn message_parts(self, policy: Seq<char>) -> Seq<Seq<char>> {
        let so_far0 = seq!["Updated "@ + decimal(self.updated as nat) + " images"@];
        let so_far1 = crate::cleanup::push_if(
            so_far0,
            self.failed > 0,
            decimal(self.failed as nat) + " failed"@,
        );
        let so_far2 = crate::cleanup::push_if(
            so_far1,
            self.restarted > 0,
            "restarted "@ + decimal(self.restarted as nat) + " containers"@,
        );
        let so_far3 = crate::cleanup::push_if(
            so_far2,
            self.restart_failed > 0,
            decimal(self.restart_failed as nat) + " restart failures"@,
        );
        crate::cleanup::push_if(
            so_far3,
            self.skipped,
            if policy == "none"@ {
                "no containers restarted (policy: none)"@
            } else {
                "some containers excluded from restart"@
            },
        )
    }

    /// The message of a run: what was updated, what failed, what was
    /// restarted, and whether the policy held containers back.
    pub fn message(&self, policy: &str) -> (r: String)
        ensures
            r@ == join_with(self.message_parts(policy@), ", "@),
    {
        let mut parts: Vec<Vec<char>> = Vec::new();
        let mut first = to_chars("Updated ");
        push_decimal(&mut first, self.updated);
        push_str(&mut first, " images");
        let ghost f = first@;
        parts.push(first);
        assert(rows(parts@) =~= seq![f]);
        if self.failed > 0 {
            let mut p: Vec<char> = Vec::new();
            push_decimal(&mut p, self.failed);
            push_str(&mut p, " failed");
            assert(p@ =~= decimal(self.failed as nat) + " failed"@);
            push_row(&mut parts, p);
        }
        if self.restarted > 0 {
            let mut p = to_chars("restarted ");
            push_decimal(&mut p, self.restarted);
            push_str(&mut p, " containers");
            push_row(&mut parts, p);
        }
        if self.restart_failed > 0 {
            let mut p: Vec<char> = Vec::new();
            push_decimal(&mut p, self.restart_failed);
            push_str(&mut p, " restart failures");
            assert(p@ =~= decimal(self.restart_failed as nat) + " restart failures"@);
            push_row(&mut parts, p);
        }
        if self.skipped {
            let pol = to_chars(policy);
            if is_text(&pol, "none") {
                push_row(&mut parts, to_chars("no containers restarted (policy: none)"));
            } else {
                push_row(&mut parts, to_chars("some containers excluded from restart"));
            }
        }
        let text = join(&parts, ", ");
        from_chars(&text)
    }
}

// ---------------------------------------------------------------------------
// The run
// ---------------------------------------------------------------------------

/// What a run waits for.
#[derive(Debug, Clone, Copy, PartialEq, Eq, Structural)]
pub enum Awaiting {
    /// Nothing yet: the run has not begun.
    Start,
    /// The pull of the current image.
    Pull,
    /// The list of the containers made from the current image.
    Dependents,
    /// The restart of the current container.
    Restart,
    /// Nothing more: the run is over.
    Done,
}

/// What the caller is to do next.
#[derive(Debug, Clone, PartialEq, Eq)]
pub enum UpdateCommand {
    /// Pull this image, and come back with the outcome.
    Pull(String),
    /// List the containers made from this image, and come back with the
    /// output.
    FindDependents(String),
    /// Restart this container, and come back with the outcome.
    Restart(String),
    /// The run is over; this is its message.
    Finish(String),
}

/// A command as the contracts speak of it.
pub enum CommandView {
    Pull(Seq<char>),
    FindDependents(Seq<char>),
    Restart(Seq<char>),
    Finish(Seq<char>),
}

impl View for UpdateCommand {
    type V = CommandView;

    open spec fn view(&self) -> CommandView {
        match self {
            UpdateCommand::Pull(i) => CommandView::Pull(i@),
            UpdateCommand::FindDependents(i) => CommandView::FindDependents(i@),
            UpdateCommand::Restart(c) => CommandView::Restart(c@),
            UpdateCommand::Finish(m) => CommandView::Finish(m@),
        }
    }
}

/// An update of images on one server, step by step: each image is pulled;
/// after a pull that succeeded, the containers made from the image are
/// listed, filtered through the restart policy, and restarted one by one.
pub struct DockerUpdateRun {
    pub images: Vec<String>,
    pub policy: String,
    pub excluded: Vec<String>,
    /// The image that is being worked on.
    pub current_image: usize,
    /// The containers to restart for the current image.
    pub queue: Vec<String>,
    /// The container that is being restarted.
    pub current_restart: usize,
    pub tally: UpdateTally,
    pub awaiting: Awaiting,
}

/// A run as the contracts speak of it.
pub struct RunView {
    pub images: Seq<Seq<char>>,
    pub policy: Seq<char>,
    pub excluded: Seq<Seq<char>>,
    pub current_image: nat,
    pub queue: Seq<Seq<char>>,
    pub current_restart: nat,
    pub tally: UpdateTally,
    pub awaiting: Awaiting,
}

impl View for DockerUpdateRun {
    type V = RunView;

    open spec fn view(&self) -> RunView {
        RunView {
            images: texts(self.images@),
            policy: self.policy@,
            excluded: texts(self.excluded@),
            current_image: self.current_image as nat,
            queue: texts(self.queue@),
            current_restart: self.current_restart as nat,
            tally: self.tally,
            awaiting: self.awaiting,
        }
    }
}

/// The tally once a pull was counted.
pub open spec fn pull_counted(t: UpdateTally, ok: bool) -> UpdateTally {
    if ok {
        UpdateTally { updated: one_more(t.updated), ..t }
    } else {
        UpdateTally { failed: one_more(t.failed), ..t }
    }
}

/// The tally once a restart was counted.
pub open spec fn restart_counted(t: UpdateTally, ok: bool) -> UpdateTally {
    if ok {
        UpdateTally { restarted: one_more(t.restarted), ..t }
    } else {
        UpdateTally { restart_failed: one_more(t.restart_failed), ..t }
    }
}

/// Turning to the image at `index`: it is pulled, or, where there is none
/// left, the run is over.
pub open spec fn turn_to_image(r: RunView, index: nat) -> (RunView, CommandView) {
    if index < r.images.len() {
        (
            RunView { current_image: index, awaiting: Awaiting::Pull, ..r },
            CommandView::Pull(r.images[index as int]),
        )
    } else {
        (
            RunView { current_image: index, awaiting: Awaiting::Done, ..r },
            CommandView::Finish(join_with(r.tally.message_parts(r.policy), ", "@)),
        )
    }
}

/// Turning to the container at `index` of the queue: it is restarted, or,
/// where the queue is through, the next image is turned to.
pub open spec fn turn_to_restart(r: RunView, index: nat) -> (RunView, CommandView) {
    if index < r.queue.len() {
        (
            RunView { current_restart: index, awaiting: Awaiting::Restart, ..r },
            CommandView::Restart(r.queue[index as int]),
        )
    } else {
        turn_to_image(RunView { current_restart: index, ..r }, r.current_image + 1)
    }
}

/// What holds of a run at every step: the image and the container that it
/// waits for exist.
pub open spec fn run_is_sound(r: RunView) -> bool {
    &&& r.current_image <= r.images.len()
    &&& r.current_restart <= r.queue.len()
    &&& (r.awaiting == Awaiting::Pull || r.awaiting == Awaiting::Dependents || r.awaiting
        == Awaiting::Restart) ==> r.current_image < r.images.len()
    &&& r.awaiting == Awaiting::Restart ==> r.current_restart < r.queue.len()
}

/// What a run does with the outcome of the command it waited for. The
/// outcome is the command's output, or nothing where the command failed.
pub open spec fn run_step(r: RunView, outcome: Option<Seq<char>>) -> (RunView, CommandView) {
    match r.awaiting {
        Awaiting::Start => turn_to_image(r, 0),
        Awaiting::Pull => {
            let counted = RunView { tally: pull_counted(r.tally, outcome is Some), ..r };
            if outcome is Some {
                (
                    RunView { awaiting: Awaiting::Dependents, ..counted },
                    CommandView::FindDependents(r.images[r.current_image as int]),
                )
            } else {
                turn_to_image(counted, r.current_image + 1)
            }
        },
        Awaiting::Dependents => match outcome {
            Some(output) => {
                let found = lines_of(output).filter_map(container_rule());
                let queue = found.filter_map(restart_rule(r.policy, r.excluded));
                turn_to_restart(
                    RunView {
                        queue: queue,
                        tally: UpdateTally {
                            skipped: r.tally.skipped || queue.len() < found.len(),
                            ..r.tally
                        },
                        ..r
                    },
                    0,
                )
            },
            None => turn_to_image(r, r.current_image + 1),
        },
        Awaiting::Restart => turn_to_restart(
            RunView { tally: restart_counted(r.tally, outcome is Some), ..r },
            r.current_restart + 1,
        ),
        Awaiting::Done => turn_to_image(r, r.current_image),
    }
}

impl DockerUpdateRun {
    /// A run over these images that has not begun.
    pub fn new(images: Vec<String>, policy: &str, excluded: Vec<String>) -> (r: Self)
        ensures
            r@ == (RunView {
                images: texts(images@),
                policy: policy@,
                excluded: texts(excluded@),
                current_image: 0,
                queue: Seq::<Seq<char>>::empty(),
                current_restart: 0,
                tally: UpdateTally {
                    updated: 0,
                    failed: 0,
                    restarted: 0,
                    restart_failed: 0,
                    skipped: false,
                },
                awaiting: Awaiting::Start,
            }),
            run_is_sound(r@),
    {
        let queue: Vec<String> = Vec::new();
        assert(texts(queue@) =~= Seq::<Seq<char>>::empty());
        DockerUpdateRun {
            images,
            policy: policy.to_string(),
            excluded,
            current_image: 0,
            queue,
            current_restart: 0,
            tally: UpdateTally::new(),
            awaiting: Awaiting::Start,
        }
    }

    /// Whether the image and the container that the run waits for exist.
    pub fn is_sound(&self) -> (r: bool)
        ensures
            r == run_is_sound(self@),
    {
        let waits_for_image = match self.awaiting {
            Awaiting::Pull | Awaiting::Dependents | Awaiting::Restart => true,
            Awaiting::Start | Awaiting::Done => false,
        };
        let waits_for_container = match self.awaiting {
            Awaiting::Restart => true,
            _ => false,
        };
        self.current_image <= self.images.len() && self.current_restart <= self.queue.len() && (
        !waits_for_image || self.current_image < self.images.len()) && (!waits_for_container
            || self.current_restart < self.queue.len())
    }

    fn turn_to_image(&mut self, index: usize) -> (c: UpdateCommand)
        requires
            index <= old(self).images@.len(),
            old(self).current_restart <= old(self).queue@.len(),
        ensures
            (final(self)@, c@) == turn_to_image(old(self)@, index as nat),
            run_is_sound(final(self)@),
    {
        self.current_image = index;
        if index < self.images.len() {
            self.awaiting = Awaiting::Pull;
            assert(texts(self.images@)[index as int] == self.images@[index as int]@);
            UpdateCommand::Pull(self.images[index].clone())
        } else {
            self.awaiting = Awaiting::Done;
            UpdateCommand::Finish(self.tally.message(self.policy.as_str()))
        }
    }

    fn turn_to_restart(&mut self, index: usize) -> (c: UpdateCommand)
        requires
            old(self).current_image < old(self).images@.len(),
            index <= old(self).queue@.len(),
        ensures
            (final(self)@, c@) == turn_to_restart(old(self)@, index as nat),
            run_is_sound(final(self)@),
    {
        self.current_restart = index;
        if index < self.queue.len() {
            self.awaiting = Awaiting::Restart;
            assert(texts(self.queue@)[index as int] == self.queue@[index as int]@);
            UpdateCommand::Restart(self.queue[index].clone())
        } else {
            let images = self.images.len();
            assert(self.current_image < images);
            let next = self.current_image + 1;
            self.turn_to_image(next)
        }
    }

    /// Takes the outcome of the command that was given last, and gives the
    /// next one. The outcome is the command's output, or nothing where the
    /// command failed; what is handed to a run that has not begun, or to one
    /// that is over, is not looked at.
    pub fn advance(&mut self, outcome: Option<&str>) -> (c: UpdateCommand)
        requires
            run_is_sound(old(self)@),
        ensures
            (final(self)@, c@) == run_step(old(self)@, opt_str(outcome)),
            run_is_sound(final(self)@),
    {
        let images = self.images.len();
        let queued = self.queue.len();
        assert(self.current_image <= images && self.current_restart <= queued);
        match self.awaiting {
            Awaiting::Start => self.turn_to_image(0),
            Awaiting::Pull => {
                let ok = outcome.is_some();
                self.tally.record_pull(ok);
                if ok {
                    self.awaiting = Awaiting::Dependents;
                    assert(texts(self.images@)[self.current_image as int]
                        == self.images@[self.current_image as int]@);
                    UpdateCommand::FindDependents(self.images[self.current_image].clone())
                } else {
                    let next = self.current_image + 1;
                    self.turn_to_image(next)
                }
            },
            Awaiting::Dependents => match outcome {
                Some(output) => {
                    let found = parse_container_names(output);
                    let plan = restart_plan(&found, self.policy.as_str(), &self.excluded);
                    self.tally.record_plan(&plan);
                    self.queue = plan.to_restart;
                    self.turn_to_restart(0)
                },
                None => {
                    let next = self.current_image + 1;
                    self.turn_to_image(next)
                },
            },
            Awaiting::Restart => {
                self.tally.record_restart(outcome.is_some());
                let next = self.current_restart + 1;
                self.turn_to_restart(next)
            },
            Awaiting::Done => {
                let at = self.current_image;
                self.turn_to_image(at)
            },
        }
    }
}

/// What an update run answers before any image is pulled, if anything: that
/// no images were specified, that none were found, or, in a dry run, how many
/// would be updated.
pub open spec fn early_answer_spec(request_given: bool, images: nat, dry_run: bool) -> Option<
    Seq<char>,
> {
    if !request_given {
        Some("No images specified (use --all or --images)"@)
    } else if images == 0 {
        Some("No images found"@)
    } else if dry_run {
        Some(decimal(images) + " images would be updated"@)
    } else {
        None
    }
}

pub fn early_answer(request_given: bool, images: usize, dry_run: bool) -> (r: Option<String>)
    ensures
        match r {
            Some(t) => early_answer_spec(request_given, images as nat, dry_run) == Some(t@),
            None => early_answer_spec(request_given, images as nat, dry_run) is None,
        },
{
    if !request_given {
        Some("No images specified (use --all or --images)".to_string())
    } else if images == 0 {
        Some("No images found".to_string())
    } else if dry_run {
        let mut out: Vec<char> = Vec::new();
        crate::numbers::push_count(&mut out, images);
        push_str(&mut out, " images would be updated");
        assert(out@ =~= decimal(images as nat) + " images would be updated"@);
        Some(from_chars(&out))
    } else {
        None
    }
}

} // verus!

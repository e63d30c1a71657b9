//! Running a cleanup: the steps of a plan, the command of each step on a
//! remote server, and what each step's outcome adds to the result.
//!
//! Pruning is the caller's part. The order of the steps, what is handed to
//! each, and the bookkeeping are decided here.

use crate::cleanup::{CleanupResult, PruneStats};
use crate::numbers::{capped, decimal, push_count, push_decimal};
use crate::profiles::{CleanupPlan, CleanupThresholds};
use crate::remote::{
    count_named,
    count_pruned_networks,
    parse_prune_output,
    prune_stats_spec,
    until_filter,
    until_filter_spec,
};
use crate::sizes::{format_bytes_spec, push_bytes, GB, KB, MB};
use crate::text::{from_chars, push_all, push_str, to_chars};
use crate::tokens::{join, join_with, lines_of, push_row, rows, texts};
use vstd::prelude::*;

verus! {

/// One step of a cleanup.
#[derive(Debug, Clone, Copy, PartialEq, Eq, Structural)]
pub enum CleanupStep {
    DanglingImages,
    UnusedNetworks,
    BuildCache,
    StoppedContainers,
    UnusedImages,
}

/// The steps of the safe cleanup, in order.
pub open spec fn safe_steps() -> Seq<CleanupStep> {
    seq![
        CleanupStep::DanglingImages,
        CleanupStep::UnusedNetworks,
        CleanupStep::BuildCache,
        CleanupStep::StoppedContainers,
    ]
}

/// The steps of a plan: the safe cleanup, then the unused images where the
/// plan prunes them.
pub open spec fn steps_of(plan: CleanupPlan) -> Seq<CleanupStep> {
    let safe = if plan.run_safe_cleanup {
        safe_steps()
    } else {
        Seq::<CleanupStep>::empty()
    };
    if plan.run_unused_image_cleanup {
        safe.push(CleanupStep::UnusedImages)
    } else {
        safe
    }
}

pub fn cleanup_steps(plan: &CleanupPlan) -> (r: Vec<CleanupStep>)
    ensures
        r@ == steps_of(*plan),
{
    let mut steps: Vec<CleanupStep> = Vec::new();
    if plan.run_safe_cleanup {
        steps.push(CleanupStep::DanglingImages);
        steps.push(CleanupStep::UnusedNetworks);
        steps.push(CleanupStep::BuildCache);
        steps.push(CleanupStep::StoppedContainers);
        assert(steps@ =~= safe_steps());
    } else {
        assert(steps@ =~= Seq::<CleanupStep>::empty());
    }
    if plan.run_unused_image_cleanup {
        steps.push(CleanupStep::UnusedImages);
    }
    steps
}

/// The arguments of `docker` for a step on a remote server.
pub open spec fn step_args_spec(step: CleanupStep, th: CleanupThresholds) -> Seq<Seq<char>> {
    match step {
        CleanupStep::DanglingImages => seq![
            "image"@,
            "prune"@,
            "-f"@,
            "--filter"@,
            "dangling=true"@,
        ],
        CleanupStep::UnusedNetworks => seq!["network"@, "prune"@, "-f"@],
        CleanupStep::BuildCache => seq!["builder"@, "prune"@, "-f"@],
        CleanupStep::StoppedContainers => seq![
            "container"@,
            "prune"@,
            "-f"@,
            "--filter"@,
            until_filter_spec(th.stopped_container_age_days),
        ],
        CleanupStep::UnusedImages => seq![
            "image"@,
            "prune"@,
            "-a"@,
            "-f"@,
            "--filter"@,
            until_filter_spec(th.unused_image_age_days),
        ],
    }
}

pub fn step_args(step: CleanupStep, th: &CleanupThresholds) -> (r: Vec<String>)
    ensures
        texts(r@) == step_args_spec(step, *th),
{
    let mut a: Vec<String> = Vec::new();
    match step {
        CleanupStep::DanglingImages => {
            a.push("image".to_string());
            a.push("prune".to_string());
            a.push("-f".to_string());
            a.push("--filter".to_string());
            a.push("dangling=true".to_string());
        },
        CleanupStep::UnusedNetworks => {
            a.push("network".to_string());
            a.push("prune".to_string());
            a.push("-f".to_string());
        },
        CleanupStep::BuildCache => {
            a.push("builder".to_string());
            a.push("prune".to_string());
            a.push("-f".to_string());
        },
        CleanupStep::StoppedContainers => {
            a.push("container".to_string());
            a.push("prune".to_string());
            a.push("-f".to_string());
            a.push("--filter".to_string());
            a.push(until_filter(th.stopped_container_age_days));
        },
        CleanupStep::UnusedImages => {
            a.push("image".to_string());
            a.push("prune".to_string());
            a.push("-a".to_string());
            a.push("-f".to_string());
            a.push("--filter".to_string());
            a.push(until_filter(th.unused_image_age_days));
        },
    }
    assert(texts(a@) =~= step_args_spec(step, *th));
    a
}

/// What a step did on a remote server, by the output of its command.
pub open spec fn step_stats_spec(step: CleanupStep, output: Seq<char>) -> (u64, nat) {
    if step is UnusedNetworks {
        (0, count_named(lines_of(output), lines_of(output).len()))
    } else {
        prune_stats_spec(output)
    }
}

pub fn read_step_output(step: CleanupStep, output: &str) -> (r: PruneStats)
    ensures
        r.space_reclaimed == step_stats_spec(step, output@).0,
        r.count == step_stats_spec(step, output@).1,
{
    match step {
        CleanupStep::UnusedNetworks => PruneStats {
            count: count_pruned_networks(output),
            space_reclaimed: 0,
        },
        _ => parse_prune_output(output),
    }
}

/// What a prune through the Docker API did: how many items it deleted,
/// and the space it reclaimed; a count that is missing is 0, and so is a
/// space that is missing or negative.
pub fn api_prune_stats(deleted: Option<usize>, space_reclaimed: Option<i64>) -> (r: PruneStats)
    ensures
        r.count == (match deleted {
            Some(n) => n,
            None => 0,
        }),
        r.space_reclaimed == crate::cleanup::clamped(
            match space_reclaimed {
                Some(s) => s,
                None => 0,
            },
        ),
{
    PruneStats {
        count: match deleted {
            Some(n) => n,
            None => 0,
        },
        space_reclaimed: crate::cleanup::clamp_size(
            match space_reclaimed {
                Some(s) => s,
                None => 0,
            },
        ),
    }
}

/// How a step ended.
pub enum StepOutcome {
    /// It ran: what it removed and reclaimed.
    Done(PruneStats),
    /// It failed; the text says why.
    Failed(String),
}

/// What a failed step is called in the errors of a result.
pub open spec fn step_name(step: CleanupStep) -> Seq<char> {
    match step {
        CleanupStep::DanglingImages => "dangling images"@,
        CleanupStep::UnusedNetworks => "networks"@,
        CleanupStep::BuildCache => "build cache"@,
        CleanupStep::StoppedContainers => "stopped containers"@,
        CleanupStep::UnusedImages => "unused images"@,
    }
}

/// The error that a failed step leaves in the result.
pub open spec fn step_error(step: CleanupStep, why: Seq<char>) -> Seq<char> {
    "Failed to prune "@ + step_name(step) + ": "@ + why
}

/// A result as the contracts speak of it.
pub struct ResultView {
    pub dangling_images_removed: usize,
    pub unused_images_removed: usize,
    pub networks_removed: usize,
    pub build_cache_reclaimed: u64,
    pub stopped_containers_removed: usize,
    pub space_reclaimed_bytes: u64,
    pub errors: Seq<Seq<char>>,
}

impl View for CleanupResult {
    type V = ResultView;

    open spec fn view(&self) -> ResultView {
        ResultView {
            dangling_images_removed: self.dangling_images_removed,
            unused_images_removed: self.unused_images_removed,
            networks_removed: self.networks_removed,
            build_cache_reclaimed: self.build_cache_reclaimed,
            stopped_containers_removed: self.stopped_containers_removed,
            space_reclaimed_bytes: self.space_reclaimed_bytes,
            errors: texts(self.errors@),
        }
    }
}

/// The result once a step's outcome was recorded. A step that ran sets its
/// own figure and adds what it reclaimed to the total; the networks have no
/// size. A step that failed leaves an error and changes no figure.
pub open spec fn recorded(r: ResultView, step: CleanupStep, outcome: StepOutcome) -> ResultView {
    match outcome {
        StepOutcome::Failed(why) => ResultView {
            errors: r.errors.push(step_error(step, why@)),
            ..r
        },
        StepOutcome::Done(stats) => {
            let space = capped(r.space_reclaimed_bytes as nat + stats.space_reclaimed as nat);
            match step {
                CleanupStep::DanglingImages => ResultView {
                    dangling_images_removed: stats.count,
                    space_reclaimed_bytes: space,
                    ..r
                },
                CleanupStep::UnusedNetworks => ResultView { networks_removed: stats.count, ..r },
                CleanupStep::BuildCache => ResultView {
                    build_cache_reclaimed: stats.space_reclaimed,
                    space_reclaimed_bytes: space,
                    ..r
                },
                CleanupStep::StoppedContainers => ResultView {
                    stopped_containers_removed: stats.count,
                    space_reclaimed_bytes: space,
                    ..r
                },
                CleanupStep::UnusedImages => ResultView {
                    unused_images_removed: stats.count,
                    space_reclaimed_bytes: space,
                    ..r
                },
            }
        },
    }
}

/// Records the outcome of a step in the result of a run.
pub fn record_step(result: &mut CleanupResult, step: CleanupStep, outcome: StepOutcome)
    ensures
        final(result)@ == recorded(old(result)@, step, outcome),
{
    match outcome {
        StepOutcome::Failed(why) => {
            let mut text = to_chars("Failed to prune ");
            let name = match step {
                CleanupStep::DanglingImages => "dangling images",
                CleanupStep::UnusedNetworks => "networks",
                CleanupStep::BuildCache => "build cache",
                CleanupStep::StoppedContainers => "stopped containers",
                CleanupStep::UnusedImages => "unused images",
            };
            push_str(&mut text, name);
            push_str(&mut text, ": ");
            push_str(&mut text, why.as_str());
            let line = from_chars(&text);
            assert(texts(result.errors@.push(line)) =~= texts(result.errors@).push(line@));
            result.errors.push(line);
        },
        StepOutcome::Done(stats) => {
            let space = result.space_reclaimed_bytes.saturating_add(stats.space_reclaimed);
            match step {
                CleanupStep::DanglingImages => {
                    result.dangling_images_removed = stats.count;
                    result.space_reclaimed_bytes = space;
                },
                CleanupStep::UnusedNetworks => {
                    result.networks_removed = stats.count;
                },
                CleanupStep::BuildCache => {
                    result.build_cache_reclaimed = stats.space_reclaimed;
                    result.space_reclaimed_bytes = space;
                },
                CleanupStep::StoppedContainers => {
                    result.stopped_containers_removed = stats.count;
                    result.space_reclaimed_bytes = space;
                },
                CleanupStep::UnusedImages => {
                    result.unused_images_removed = stats.count;
                    result.space_reclaimed_bytes = space;
                },
            }
        },
    }
}

/// The result of a run in which every step found nothing to do.
pub open spec fn nothing_done() -> ResultView {
    ResultView {
        dangling_images_removed: 0,
        unused_images_removed: 0,
        networks_removed: 0,
        build_cache_reclaimed: 0,
        stopped_containers_removed: 0,
        space_reclaimed_bytes: 0,
        errors: Seq::<Seq<char>>::empty(),
    }
}

/// A step that removes nothing and reclaims nothing leaves the result of a
/// run that has done nothing as it is: on a fleet that is clean, a cleanup
/// reports 0 removed and 0 bytes reclaimed.
pub proof fn lemma_clean_run_reports_nothing(step: CleanupStep)
    ensures
        recorded(
            nothing_done(),
            step,
            StepOutcome::Done(PruneStats { count: 0, space_reclaimed: 0 }),
        ) == nothing_done(),
{
}

// ---------------------------------------------------------------------------
// What a webhook run reports
// ---------------------------------------------------------------------------

/// The parts of the message of a safe cleanup, one for each figure that is
/// not zero.
pub open spec fn removed_parts(r: CleanupResult) -> Seq<Seq<char>> {
    let so_far0 = Seq::<Seq<char>>::empty();
    let so_far1 = crate::cleanup::push_if(
        so_far0,
        r.dangling_images_removed > 0,
        decimal(r.dangling_images_removed as nat) + " dangling images"@,
    );
    let so_far2 = crate::cleanup::push_if(
        so_far1,
        r.networks_removed > 0,
        decimal(r.networks_removed as nat) + " networks"@,
    );
    crate::cleanup::push_if(
        so_far2,
        r.stopped_containers_removed > 0,
        decimal(r.stopped_containers_removed as nat) + " containers"@,
    )
}

/// The message of a safe cleanup that a webhook started.
pub open spec fn safe_cleanup_message_spec(r: CleanupResult) -> Seq<char> {
    "Removed "@ + join_with(removed_parts(r), " + "@) + " | Reclaimed "@ + format_bytes_spec(
        r.space_reclaimed_bytes,
    )
}

pub fn safe_cleanup_message(r: &CleanupResult) -> (m: String)
    ensures
        m@ == safe_cleanup_message_spec(*r),
{
    let mut parts: Vec<Vec<char>> = Vec::new();
    assert(rows(parts@) =~= Seq::<Seq<char>>::empty());
    if r.dangling_images_removed > 0 {
        let mut p: Vec<char> = Vec::new();
        push_count(&mut p, r.dangling_images_removed);
        push_str(&mut p, " dangling images");
        assert(p@ =~= decimal(r.dangling_images_removed as nat) + " dangling images"@);
        push_row(&mut parts, p);
    }
    if r.networks_removed > 0 {
        let mut p: Vec<char> = Vec::new();
        push_count(&mut p, r.networks_removed);
        push_str(&mut p, " networks");
        assert(p@ =~= decimal(r.networks_removed as nat) + " networks"@);
        push_row(&mut parts, p);
    }
    if r.stopped_containers_removed > 0 {
        let mut p: Vec<char> = Vec::new();
        push_count(&mut p, r.stopped_containers_removed);
        push_str(&mut p, " containers");
        assert(p@ =~= decimal(r.stopped_containers_removed as nat) + " containers"@);
        push_row(&mut parts, p);
    }
    let mut out = to_chars("Removed ");
    push_all(&mut out, &join(&parts, " + "));
    push_str(&mut out, " | Reclaimed ");
    push_bytes(&mut out, r.space_reclaimed_bytes);
    from_chars(&out)
}

/// Reclaimed space as the message of an image prune shows it: GiB with two
/// decimals from 1 GiB on, whole MiB from 1 MiB on, else whole KiB.
pub open spec fn reclaimed_text(space: u64) -> Seq<char> {
    if space >= GB {
        format_bytes_spec(space)
    } else if space >= MB {
        decimal((space / MB) as nat) + "MB"@
    } else {
        decimal((space / KB) as nat) + "KB"@
    }
}

/// The message of an unused-image prune that a webhook started.
pub open spec fn prune_message_spec(count: usize, space: u64) -> Seq<char> {
    "Removed "@ + decimal(count as nat) + " unused images | Reclaimed "@ + reclaimed_text(space)
}

pub fn prune_message(count: usize, space: u64) -> (m: String)
    ensures
        m@ == prune_message_spec(count, space),
{
    let mut out = to_chars("Removed ");
    push_count(&mut out, count);
    push_str(&mut out, " unused images | Reclaimed ");
    let mut size: Vec<char> = Vec::new();
    if space >= GB {
        push_bytes(&mut size, space);
        assert(size@ =~= format_bytes_spec(space));
    } else if space >= MB {
        push_decimal(&mut size, space / MB);
        push_str(&mut size, "MB");
        assert(size@ =~= decimal((space / MB) as nat) + "MB"@);
    } else {
        push_decimal(&mut size, space / KB);
        push_str(&mut size, "KB");
        assert(size@ =~= decimal((space / KB) as nat) + "KB"@);
    }
    push_all(&mut out, &size);
    from_chars(&out)
}

/// Whether a line of a prune's output tells of a removed image: it starts
/// with `deleted:` or `untagged:`.
pub open spec fn tells_of_removal(line: Seq<char>) -> bool {
    crate::text::starts_with(line, "deleted:"@) || crate::text::starts_with(line, "untagged:"@)
}

pub open spec fn count_removals(lines: Seq<Seq<char>>) -> nat
    decreases lines.len(),
{
    if lines.len() == 0 {
        0
    } else {
        count_removals(lines.drop_last()) + if tells_of_removal(lines.last()) {
            1nat
        } else {
            0nat
        }
    }
}

/// The images that an unused-image prune removed, by its output.
pub fn count_removed_images(output: &str) -> (r: usize)
    ensures
        r == count_removals(lines_of(output@)),
{
    let raw = to_chars(output);
    let all = crate::tokens::lines(&raw);
    let mut count: usize = 0;
    let mut i: usize = 0;
    assert(rows(all@).subrange(0, 0) =~= Seq::<Seq<char>>::empty());
    while i < all.len()
        invariant
            i <= all.len(),
            count <= i,
            count == count_removals(rows(all@).subrange(0, i as int)),
        decreases all.len() - i,
    {
        assert(rows(all@).subrange(0, i + 1).drop_last() =~= rows(all@).subrange(0, i as int));
        assert(rows(all@).subrange(0, i + 1).last() == all@[i as int]@);
        if crate::text::begins_with(&all[i], "deleted:") || crate::text::begins_with(
            &all[i],
            "untagged:",
        ) {
            count += 1;
        }
        i += 1;
    }
    assert(rows(all@).subrange(0, all@.len() as int) =~= rows(all@));
    count
}

/// The arguments of `docker` that prune every unused image.
pub fn prune_all_images_args() -> (r: Vec<String>)
    ensures
        texts(r@) == seq!["image"@, "prune"@, "-a"@, "-f"@],
{
    let mut a: Vec<String> = Vec::new();
    a.push("image".to_string());
    a.push("prune".to_string());
    a.push("-a".to_string());
    a.push("-f".to_string());
    assert(texts(a@) =~= seq!["image"@, "prune"@, "-a"@, "-f"@]);
    a
}

} // verus!

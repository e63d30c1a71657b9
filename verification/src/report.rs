//! The cleanup notification of one server: what was done, what could be
//! reclaimed, and the buttons that start a cleanup.

use crate::cleanup::{
    BuildCacheItem,
    BuildCacheStats,
    CleanupReport,
    CleanupResult,
    ContainerInfo,
    ContainerStats,
    ImageInfo,
    ImageStats,
    LayerAnalysis,
    LogInfo,
    LogStats,
    NetworkInfo,
    NetworkStats,
    SharedLayer,
    VolumeInfo,
    VolumeStats,
};
use crate::notify::{
    action_url,
    action_views,
    build_action_url,
    post_action,
    ActionView,
    NtfyAction,
    WebhookLink,
};
use crate::numbers::{decimal, push_count, push_decimal};
use crate::profiles::CleanupProfile;
use crate::sizes::{format_bytes_spec, push_bytes};
use crate::text::{from_chars, push_all, push_str, to_chars};
use crate::tokens::{append_rows, from_strings, join, join_with, push_row, rows, texts};
use vstd::prelude::*;

verus! {

/// How many items of a class a report lists.
pub const LISTED_ITEMS: usize = 5;

/// How many shared layers a report lists.
pub const LISTED_LAYERS: usize = 3;

pub open spec fn min_nat(a: nat, b: nat) -> nat {
    if a <= b {
        a
    } else {
        b
    }
}

/// The lines of the first `limit` items.
pub open spec fn first_lines<T>(items: Seq<T>, limit: nat, line: spec_fn(T) -> Seq<char>) -> Seq<
    Seq<char>,
> {
    Seq::new(min_nat(items.len(), limit), |i: int| line(items[i]))
}

pub open spec fn blank() -> Seq<char> {
    Seq::<char>::empty()
}

// ---------------------------------------------------------------------------
// What a run did
// ---------------------------------------------------------------------------

/// The parts of a safe cleanup's summary, one for each figure that is not
/// zero.
pub open spec fn safe_cleanup_parts(r: CleanupResult) -> Seq<Seq<char>> {
    let so_far0 = Seq::<Seq<char>>::empty();
    let so_far1 = crate::cleanup::push_if(
        so_far0,
        r.dangling_images_removed > 0,
        decimal(r.dangling_images_removed as nat) + " dangling images"@,
    );
    let so_far2 = crate::cleanup::push_if(
        so_far1,
        r.networks_removed > 0,
        decimal(r.networks_removed as nat) + " unused networks"@,
    );
    let so_far3 = crate::cleanup::push_if(
        so_far2,
        r.build_cache_reclaimed > 0,
        format_bytes_spec(r.build_cache_reclaimed) + " build cache"@,
    );
    let so_far4 = crate::cleanup::push_if(
        so_far3,
        r.stopped_containers_removed > 0,
        decimal(r.stopped_containers_removed as nat) + " stopped containers"@,
    );
    crate::cleanup::push_if(
        so_far4,
        r.unused_images_removed > 0,
        decimal(r.unused_images_removed as nat) + " unused images"@,
    )
}

/// The line that tells what a cleanup under a profile removed and
/// reclaimed.
pub open spec fn safe_cleanup_line_spec(profile: CleanupProfile, r: CleanupResult) -> Seq<char> {
    profile.label_spec() + " cleanup: "@ + join_with(safe_cleanup_parts(r), " + "@)
        + " removed | "@ + format_bytes_spec(r.space_reclaimed_bytes) + " reclaimed"@
}

pub fn safe_cleanup_line(profile: CleanupProfile, r: &CleanupResult) -> (line: String)
    ensures
        line@ == safe_cleanup_line_spec(profile, *r),
{
    let mut parts: Vec<Vec<char>> = Vec::new();
    assert(rows(parts@) =~= Seq::<Seq<char>>::empty());
    if r.dangling_images_removed > 0 {
        let mut p: Vec<char> = Vec::new();
        push_count(&mut p, r.dangling_images_removed);
        push_str(&mut p, " dangling images");
        assert(p@ =~= decimal(r.dangling_images_removed as nat) + " dangling images"@);
        push_row(&mut parts, p);
    }
    if r.networks_removed > 0 {
        let mut p: Vec<char> = Vec::new();
        push_count(&mut p, r.networks_removed);
        push_str(&mut p, " unused networks");
        assert(p@ =~= decimal(r.networks_removed as nat) + " unused networks"@);
        push_row(&mut parts, p);
    }
    if r.build_cache_reclaimed > 0 {
        let mut p: Vec<char> = Vec::new();
        push_bytes(&mut p, r.build_cache_reclaimed);
        push_str(&mut p, " build cache");
        assert(p@ =~= format_bytes_spec(r.build_cache_reclaimed) + " build cache"@);
        push_row(&mut parts, p);
    }
    if r.stopped_containers_removed > 0 {
        let mut p: Vec<char> = Vec::new();
        push_count(&mut p, r.stopped_containers_removed);
        push_str(&mut p, " stopped containers");
        assert(p@ =~= decimal(r.stopped_containers_removed as nat) + " stopped containers"@);
        push_row(&mut parts, p);
    }
    if r.unused_images_removed > 0 {
        let mut p: Vec<char> = Vec::new();
        push_count(&mut p, r.unused_images_removed);
        push_str(&mut p, " unused images");
        assert(p@ =~= decimal(r.unused_images_removed as nat) + " unused images"@);
        push_row(&mut parts, p);
    }
    assert(rows(parts@) == safe_cleanup_parts(*r));
    let mut out = to_chars(profile.label());
    push_str(&mut out, " cleanup: ");
    let joined = join(&parts, " + ");
    push_all(&mut out, &joined);
    push_str(&mut out, " removed | ");
    push_bytes(&mut out, r.space_reclaimed_bytes);
    push_str(&mut out, " reclaimed");
    from_chars(&out)
}

/// The line that tells what the unused-image cleanup removed.
pub open spec fn unused_images_line_spec(r: CleanupResult) -> Seq<char> {
    "Unused images: "@ + decimal(r.unused_images_removed as nat) + " removed ("@
        + format_bytes_spec(r.space_reclaimed_bytes) + ")"@
}

pub fn unused_images_line(r: &CleanupResult) -> (line: String)
    ensures
        line@ == unused_images_line_spec(*r),
{
    let mut out = to_chars("Unused images: ");
    push_count(&mut out, r.unused_images_removed);
    push_str(&mut out, " removed (");
    push_bytes(&mut out, r.space_reclaimed_bytes);
    push_str(&mut out, ")");
    from_chars(&out)
}

// ---------------------------------------------------------------------------
// The sections of the analysis
// ---------------------------------------------------------------------------

pub open spec fn actions_section(summary: Seq<Seq<char>>) -> Seq<Seq<char>> {
    if summary.len() == 0 {
        Seq::<Seq<char>>::empty()
    } else {
        seq!["=== Cleanup Actions ==="@] + summary + seq![blank()]
    }
}

pub open spec fn head_section(report: CleanupReport) -> Seq<Seq<char>> {
    seq![
        "=== Analysis Report ==="@,
        "Total reclaimable: "@ + format_bytes_spec(report.total_reclaimable_bytes),
        blank(),
    ]
}

pub open spec fn dangling_line(item: ImageInfo) -> Seq<char> {
    "  • "@ + item.image_id@ + " ("@ + format_bytes_spec(item.size_bytes) + ")"@
}

pub open spec fn dangling_rule() -> spec_fn(ImageInfo) -> Seq<char> {
    |item: ImageInfo| dangling_line(item)
}

pub open spec fn dangling_section(s: ImageStats) -> Seq<Seq<char>> {
    if s.count > 0 {
        seq![
            "Dangling Images: "@ + decimal(s.count as nat) + " ("@ + format_bytes_spec(
                s.total_size_bytes,
            ) + ")"@,
        ] + first_lines(s.items@, LISTED_ITEMS as nat, dangling_rule()) + seq![blank()]
    } else {
        Seq::<Seq<char>>::empty()
    }
}

pub open spec fn unused_line(item: ImageInfo) -> Seq<char> {
    "  • "@ + item.repository@ + ":"@ + item.tag@ + " ("@ + format_bytes_spec(item.size_bytes)
        + ")"@
}

pub open spec fn unused_rule() -> spec_fn(ImageInfo) -> Seq<char> {
    |item: ImageInfo| unused_line(item)
}

pub open spec fn unused_section(s: ImageStats) -> Seq<Seq<char>> {
    if s.count > 0 {
        seq![
            "Unused Images: "@ + decimal(s.count as nat) + " ("@ + format_bytes_spec(
                s.total_size_bytes,
            ) + ")"@,
        ] + first_lines(s.items@, LISTED_ITEMS as nat, unused_rule()) + seq![blank()]
    } else {
        Seq::<Seq<char>>::empty()
    }
}

pub open spec fn network_line(item: NetworkInfo) -> Seq<char> {
    "  • "@ + item.name@ + " ("@ + item.driver@ + ")"@
}

pub open spec fn network_rule() -> spec_fn(NetworkInfo) -> Seq<char> {
    |item: NetworkInfo| network_line(item)
}

pub open spec fn network_section(s: NetworkStats) -> Seq<Seq<char>> {
    if s.count > 0 {
        seq!["Unused Networks: "@ + decimal(s.count as nat)] + first_lines(
            s.items@,
            LISTED_ITEMS as nat,
            network_rule(),
        ) + seq![blank()]
    } else {
        Seq::<Seq<char>>::empty()
    }
}

/// How many of the items are in use.
pub open spec fn count_in_use(items: Seq<BuildCacheItem>) -> nat
    decreases items.len(),
{
    if items.len() == 0 {
        0
    } else {
        count_in_use(items.drop_last()) + if items.last().in_use {
            1nat
        } else {
            0nat
        }
    }
}

pub open spec fn build_cache_section(s: BuildCacheStats) -> Seq<Seq<char>> {
    if s.total_size_bytes > 0 {
        let in_use = count_in_use(s.items@);
        let unused = (s.items@.len() - in_use) as nat;
        let l0 = seq![
            "Build Cache: "@ + format_bytes_spec(s.total_size_bytes) + " total ("@
                + format_bytes_spec(s.reclaimable_bytes) + " reclaimable)"@,
        ];
        let l1 = crate::cleanup::push_if(
            l0,
            unused > 0,
            "  • "@ + decimal(unused) + " unused cache items"@,
        );
        let l2 = crate::cleanup::push_if(
            l1,
            in_use > 0,
            "  • "@ + decimal(in_use) + " in-use cache items"@,
        );
        l2.push(blank())
    } else {
        Seq::<Seq<char>>::empty()
    }
}

pub open spec fn container_line(item: ContainerInfo) -> Seq<char> {
    "  • "@ + item.name@ + " ["@ + item.status@ + "] ("@ + format_bytes_spec(item.size_bytes)
        + ")"@
}

pub open spec fn container_rule() -> spec_fn(ContainerInfo) -> Seq<char> {
    |item: ContainerInfo| container_line(item)
}

pub open spec fn container_section(s: ContainerStats) -> Seq<Seq<char>> {
    if s.count > 0 {
        seq![
            "Stopped Containers: "@ + decimal(s.count as nat) + " ("@ + format_bytes_spec(
                s.total_size_bytes,
            ) + ")"@,
        ] + first_lines(s.items@, LISTED_ITEMS as nat, container_rule()) + seq![blank()]
    } else {
        Seq::<Seq<char>>::empty()
    }
}

/// The line of a layer, and the line that names the images sharing it: all
/// of them up to three, else the first two and how many more there are.
pub open spec fn layer_pair(layer: SharedLayer) -> Seq<Seq<char>> {
    let names = texts(layer.images_using@);
    seq![
        "  • "@ + layer.layer_id@ + " ("@ + format_bytes_spec(layer.size_bytes)
            + ") - shared by "@ + decimal(layer.shared_by_count as nat) + " images"@,
        if names.len() <= 3 {
            "    "@ + join_with(names, ", "@)
        } else {
            "    "@ + join_with(names.subrange(0, 2), ", "@) + ", and "@ + decimal(
                (names.len() - 2) as nat,
            ) + " more"@
        },
    ]
}

/// The lines of the first `n` layers.
pub open spec fn layer_lines(layers: Seq<SharedLayer>, n: nat) -> Seq<Seq<char>>
    recommends
        n <= layers.len(),
    decreases n,
{
    if n == 0 {
        Seq::<Seq<char>>::empty()
    } else {
        layer_lines(layers, (n - 1) as nat) + layer_pair(layers[n - 1])
    }
}

pub open spec fn layer_section(a: LayerAnalysis) -> Seq<Seq<char>> {
    if a.shared_layers@.len() > 0 {
        seq![
            "Layer Analysis: "@ + decimal(a.shared_layers@.len()) + " shared layers ("@ + decimal(
                a.efficiency_spec() as nat,
            ) + "% efficiency)"@,
            "  • Shared: "@ + format_bytes_spec(a.total_shared_bytes) + " | Unique: "@
                + format_bytes_spec(a.total_unique_bytes),
        ] + layer_lines(a.shared_layers@, min_nat(a.shared_layers@.len(), LISTED_LAYERS as nat))
            + seq![blank()]
    } else {
        Seq::<Seq<char>>::empty()
    }
}

pub open spec fn log_line(item: LogInfo) -> Seq<char> {
    "  • "@ + item.container_name@ + " ("@ + format_bytes_spec(item.log_size_bytes) + ", "@ + (
    if item.has_rotation {
        "rotated"@
    } else {
        "NO ROTATION"@
    }) + ")"@
}

pub open spec fn log_rule() -> spec_fn(LogInfo) -> Seq<char> {
    |item: LogInfo| log_line(item)
}

pub open spec fn log_section(s: LogStats) -> Seq<Seq<char>> {
    if s.containers_over_threshold > 0 {
        seq![
            "Large Logs: "@ + decimal(s.containers_over_threshold as nat) + " containers (total "@
                + format_bytes_spec(s.total_size_bytes) + ")"@,
        ] + first_lines(s.items@, LISTED_ITEMS as nat, log_rule()) + seq![blank()]
    } else {
        Seq::<Seq<char>>::empty()
    }
}

pub open spec fn volume_line(item: VolumeInfo) -> Seq<char> {
    "  • "@ + item.name@ + " ("@ + format_bytes_spec(item.size_bytes) + ", "@ + (
    if item.containers_using@.len() == 0 {
        "UNUSED"@
    } else {
        "used by "@ + join_with(texts(item.containers_using@), ", "@)
    }) + ")"@
}

pub open spec fn volume_rule() -> spec_fn(VolumeInfo) -> Seq<char> {
    |item: VolumeInfo| volume_line(item)
}

pub open spec fn volume_section(s: VolumeStats) -> Seq<Seq<char>> {
    if s.count > 0 {
        seq![
            "Volumes: "@ + decimal(s.count as nat) + " (total "@ + format_bytes_spec(
                s.total_size_bytes,
            ) + ")"@,
        ] + first_lines(s.items@, LISTED_ITEMS as nat, volume_rule()) + seq![blank()]
    } else {
        Seq::<Seq<char>>::empty()
    }
}

/// The lines of the notification's body.
pub open spec fn body_lines(report: CleanupReport, summary: Seq<Seq<char>>) -> Seq<Seq<char>> {
    actions_section(summary) + head_section(report) + dangling_section(report.dangling_images)
        + unused_section(report.unused_images) + network_section(report.unused_networks)
        + build_cache_section(report.build_cache) + container_section(report.stopped_containers)
        + layer_section(report.layer_analysis) + log_section(report.large_logs) + volume_section(
        report.volumes,
    )
}

/// The notification's title: the analysis alone, or a completed cleanup.
pub open spec fn title_spec(server_name: Seq<char>, executed: bool) -> Seq<char> {
    server_name + (if executed {
        " - Docker Cleanup: Complete"@
    } else {
        " - Docker Cleanup: Analysis"@
    })
}

/// The buttons under an analysis. There are none once a cleanup was
/// executed, none where nothing can be reclaimed, and none without a webhook
/// link or with an empty secret in it; else one for the safe cleanup where
/// dangling images or unused networks exist, and one for pruning where unused
/// images exist.
pub open spec fn cleanup_actions_spec(
    report: CleanupReport,
    server_name: Seq<char>,
    executed: bool,
    link: Option<WebhookLink>,
) -> Seq<ActionView> {
    match link {
        Some(l) => if l.secret@.len() > 0 && !executed && report.total_reclaimable_bytes > 0 {
            let a0 = Seq::<ActionView>::empty();
            let a1 = if report.dangling_images.count > 0 || report.unused_networks.count > 0 {
                a0.push(
                    post_action(
                        "Safe Cleanup"@,
                        action_url(l.base_url@, "/webhook/cleanup/safe"@, server_name, l.secret@),
                    ),
                )
            } else {
                a0
            };
            if report.unused_images.count > 0 {
                a1.push(
                    post_action(
                        "Prune Unused Images"@,
                        action_url(
                            l.base_url@,
                            "/webhook/cleanup/images/prune-unused"@,
                            server_name,
                            l.secret@,
                        ),
                    ),
                )
            } else {
                a1
            }
        } else {
            Seq::<ActionView>::empty()
        },
        None => Seq::<ActionView>::empty(),
    }
}

/// The cleanup notification of one server.
pub struct CleanupNotification {
    pub title: String,
    pub body: String,
    pub actions: Vec<NtfyAction>,
}

fn image_lines(s: &ImageStats, dangling: bool) -> (r: Vec<Vec<char>>)
    ensures
        rows(r@) == if dangling {
            dangling_section(*s)
        } else {
            unused_section(*s)
        },
{
    let mut lines: Vec<Vec<char>> = Vec::new();
    if s.count == 0 {
        assert(rows(lines@) =~= Seq::<Seq<char>>::empty());
        return lines;
    }
    let mut head = to_chars(if dangling {
        "Dangling Images: "
    } else {
        "Unused Images: "
    });
    push_count(&mut head, s.count);
    push_str(&mut head, " (");
    push_bytes(&mut head, s.total_size_bytes);
    push_str(&mut head, ")");
    let ghost head_line = head@;
    lines.push(head);
    assert(rows(lines@) =~= seq![head_line]);
    let ghost listed = if dangling {
        first_lines(s.items@, LISTED_ITEMS as nat, dangling_rule())
    } else {
        first_lines(s.items@, LISTED_ITEMS as nat, unused_rule())
    };
    let mut i: usize = 0;
    assert(seq![head_line] + listed.subrange(0, 0) =~= seq![head_line]);
    while i < s.items.len() && i < LISTED_ITEMS
        invariant
            i <= s.items.len(),
            i <= LISTED_ITEMS,
            listed == (if dangling {
                first_lines(s.items@, LISTED_ITEMS as nat, dangling_rule())
            } else {
                first_lines(s.items@, LISTED_ITEMS as nat, unused_rule())
            }),
            rows(lines@) == seq![head_line] + listed.subrange(0, i as int),
        decreases s.items.len() - i,
    {
        let item = &s.items[i];
        let mut line = to_chars("  • ");
        if dangling {
            push_str(&mut line, item.image_id.as_str());
        } else {
            push_str(&mut line, item.repository.as_str());
            push_str(&mut line, ":");
            push_str(&mut line, item.tag.as_str());
        }
        push_str(&mut line, " (");
        push_bytes(&mut line, item.size_bytes);
        push_str(&mut line, ")");
        assert(line@ == listed[i as int]);
        assert(seq![head_line] + listed.subrange(0, i + 1) =~= (seq![head_line] + listed.subrange(
            0,
            i as int,
        )).push(line@));
        push_row(&mut lines, line);
        i += 1;
    }
    assert(listed.subrange(0, i as int) =~= listed);
    push_row(&mut lines, Vec::new());
    assert(rows(lines@) =~= seq![head_line] + listed + seq![blank()]);
    lines
}

fn network_lines(s: &NetworkStats) -> (r: Vec<Vec<char>>)
    ensures
        rows(r@) == network_section(*s),
{
    let mut lines: Vec<Vec<char>> = Vec::new();
    if s.count == 0 {
        assert(rows(lines@) =~= Seq::<Seq<char>>::empty());
        return lines;
    }
    let mut head = to_chars("Unused Networks: ");
    push_count(&mut head, s.count);
    let ghost head_line = head@;
    lines.push(head);
    assert(rows(lines@) =~= seq![head_line]);
    let ghost listed = first_lines(s.items@, LISTED_ITEMS as nat, network_rule());
    let mut i: usize = 0;
    assert(seq![head_line] + listed.subrange(0, 0) =~= seq![head_line]);
    while i < s.items.len() && i < LISTED_ITEMS
        invariant
            i <= s.items.len(),
            i <= LISTED_ITEMS,
            listed == first_lines(s.items@, LISTED_ITEMS as nat, network_rule()),
            rows(lines@) == seq![head_line] + listed.subrange(0, i as int),
        decreases s.items.len() - i,
    {
        let item = &s.items[i];
        let mut line = to_chars("  • ");
        push_str(&mut line, item.name.as_str());
        push_str(&mut line, " (");
        push_str(&mut line, item.driver.as_str());
        push_str(&mut line, ")");
        assert(line@ == listed[i as int]);
        assert(seq![head_line] + listed.subrange(0, i + 1) =~= (seq![head_line] + listed.subrange(
            0,
            i as int,
        )).push(line@));
        push_row(&mut lines, line);
        i += 1;
    }
    assert(listed.subrange(0, i as int) =~= listed);
    push_row(&mut lines, Vec::new());
    assert(rows(lines@) =~= seq![head_line] + listed + seq![blank()]);
    lines
}

fn in_use_count(items: &Vec<BuildCacheItem>) -> (n: usize)
    ensures
        n == count_in_use(items@),
        n <= items.len(),
{
    let mut n: usize = 0;
    let mut i: usize = 0;
    assert(items@.subrange(0, 0) =~= Seq::<BuildCacheItem>::empty());
    while i < items.len()
        invariant
            i <= items.len(),
            n <= i,
            n == count_in_use(items@.subrange(0, i as int)),
        decreases items.len() - i,
    {
        assert(items@.subrange(0, i + 1).drop_last() =~= items@.subrange(0, i as int));
        assert(items@.subrange(0, i + 1).last() == items@[i as int]);
        if items[i].in_use {
            n += 1;
        }
        i += 1;
    }
    assert(items@.subrange(0, items@.len() as int) =~= items@);
    n
}

fn build_cache_lines(s: &BuildCacheStats) -> (r: Vec<Vec<char>>)
    ensures
        rows(r@) == build_cache_section(*s),
{
    let mut lines: Vec<Vec<char>> = Vec::new();
    if s.total_size_bytes == 0 {
        assert(rows(lines@) =~= Seq::<Seq<char>>::empty());
        return lines;
    }
    let mut head = to_chars("Build Cache: ");
    push_bytes(&mut head, s.total_size_bytes);
    push_str(&mut head, " total (");
    push_bytes(&mut head, s.reclaimable_bytes);
    push_str(&mut head, " reclaimable)");
    let ghost head_line = head@;
    lines.push(head);
    assert(rows(lines@) =~= seq![head_line]);
    let in_use = in_use_count(&s.items);
    let unused = s.items.len() - in_use;
    if unused > 0 {
        let mut line = to_chars("  • ");
        push_count(&mut line, unused);
        push_str(&mut line, " unused cache items");
        push_row(&mut lines, line);
    }
    if in_use > 0 {
        let mut line = to_chars("  • ");
        push_count(&mut line, in_use);
        push_str(&mut line, " in-use cache items");
        push_row(&mut lines, line);
    }
    push_row(&mut lines, Vec::new());
    lines
}

fn container_lines(s: &ContainerStats) -> (r: Vec<Vec<char>>)
    ensures
        rows(r@) == container_section(*s),
{
    let mut lines: Vec<Vec<char>> = Vec::new();
    if s.count == 0 {
        assert(rows(lines@) =~= Seq::<Seq<char>>::empty());
        return lines;
    }
    let mut head = to_chars("Stopped Containers: ");
    push_count(&mut head, s.count);
    push_str(&mut head, " (");
    push_bytes(&mut head, s.total_size_bytes);
    push_str(&mut head, ")");
    let ghost head_line = head@;
    lines.push(head);
    assert(rows(lines@) =~= seq![head_line]);
    let ghost listed = first_lines(s.items@, LISTED_ITEMS as nat, container_rule());
    let mut i: usize = 0;
    assert(seq![head_line] + listed.subrange(0, 0) =~= seq![head_line]);
    while i < s.items.len() && i < LISTED_ITEMS
        invariant
            i <= s.items.len(),
            i <= LISTED_ITEMS,
            listed == first_lines(s.items@, LISTED_ITEMS as nat, container_rule()),
            rows(lines@) == seq![head_line] + listed.subrange(0, i as int),
        decreases s.items.len() - i,
    {
        let item = &s.items[i];
        let mut line = to_chars("  • ");
        push_str(&mut line, item.name.as_str());
        push_str(&mut line, " [");
        push_str(&mut line, item.status.as_str());
        push_str(&mut line, "] (");
        push_bytes(&mut line, item.size_bytes);
        push_str(&mut line, ")");
        assert(line@ == listed[i as int]);
        assert(seq![head_line] + listed.subrange(0, i + 1) =~= (seq![head_line] + listed.subrange(
            0,
            i as int,
        )).push(line@));
        push_row(&mut lines, line);
        i += 1;
    }
    assert(listed.subrange(0, i as int) =~= listed);
    push_row(&mut lines, Vec::new());
    assert(rows(lines@) =~= seq![head_line] + listed + seq![blank()]);
    lines
}

fn layer_pair_lines(layer: &SharedLayer) -> (r: Vec<Vec<char>>)
    ensures
        rows(r@) == layer_pair(*layer),
{
    let mut first = to_chars("  • ");
    push_str(&mut first, layer.layer_id.as_str());
    push_str(&mut first, " (");
    push_bytes(&mut first, layer.size_bytes);
    push_str(&mut first, ") - shared by ");
    push_count(&mut first, layer.shared_by_count);
    push_str(&mut first, " images");
    let names = from_strings(&layer.images_using);
    let mut second = to_chars("    ");
    assert(rows(names@).len() == names@.len());
    if names.len() <= 3 {
        let joined = join(&names, ", ");
        push_all(&mut second, &joined);
    } else {
        let mut two: Vec<Vec<char>> = Vec::new();
        let mut a: Vec<char> = Vec::new();
        push_all(&mut a, &names[0]);
        let mut b: Vec<char> = Vec::new();
        push_all(&mut b, &names[1]);
        assert(a@ =~= names@[0]@);
        assert(b@ =~= names@[1]@);
        two.push(a);
        two.push(b);
        assert(rows(two@) =~= rows(names@).subrange(0, 2));
        let joined = join(&two, ", ");
        push_all(&mut second, &joined);
        push_str(&mut second, ", and ");
        push_count(&mut second, names.len() - 2);
        push_str(&mut second, " more");
    }
    let mut lines: Vec<Vec<char>> = Vec::new();
    let ghost l1 = first@;
    let ghost l2 = second@;
    lines.push(first);
    lines.push(second);
    assert(rows(lines@) =~= seq![l1, l2]);
    lines
}

fn layer_section_lines(a: &LayerAnalysis) -> (r: Vec<Vec<char>>)
    ensures
        rows(r@) == layer_section(*a),
{
    let mut lines: Vec<Vec<char>> = Vec::new();
    if a.shared_layers.len() == 0 {
        assert(rows(lines@) =~= Seq::<Seq<char>>::empty());
        return lines;
    }
    let mut head = to_chars("Layer Analysis: ");
    push_count(&mut head, a.shared_layers.len());
    push_str(&mut head, " shared layers (");
    push_decimal(&mut head, a.efficiency_percent());
    push_str(&mut head, "% efficiency)");
    let mut second = to_chars("  • Shared: ");
    push_bytes(&mut second, a.total_shared_bytes);
    push_str(&mut second, " | Unique: ");
    push_bytes(&mut second, a.total_unique_bytes);
    let ghost l1 = head@;
    let ghost l2 = second@;
    lines.push(head);
    lines.push(second);
    assert(rows(lines@) =~= seq![l1, l2]);
    let mut i: usize = 0;
    assert(seq![l1, l2] + layer_lines(a.shared_layers@, 0) =~= seq![l1, l2]);
    while i < a.shared_layers.len() && i < LISTED_LAYERS
        invariant
            i <= a.shared_layers.len(),
            i <= LISTED_LAYERS,
            rows(lines@) == seq![l1, l2] + layer_lines(a.shared_layers@, i as nat),
        decreases a.shared_layers.len() - i,
    {
        let pair = layer_pair_lines(&a.shared_layers[i]);
        assert(seq![l1, l2] + layer_lines(a.shared_layers@, (i + 1) as nat) =~= (seq![l1, l2]
            + layer_lines(a.shared_layers@, i as nat)) + layer_pair(a.shared_layers@[i as int]));
        append_rows(&mut lines, pair);
        i += 1;
    }
    push_row(&mut lines, Vec::new());
    assert(i as nat == min_nat(a.shared_layers@.len(), LISTED_LAYERS as nat));
    assert(rows(lines@) =~= seq![l1, l2] + layer_lines(a.shared_layers@, i as nat) + seq![
        blank(),
    ]);
    lines
}

fn log_lines(s: &LogStats) -> (r: Vec<Vec<char>>)
    ensures
        rows(r@) == log_section(*s),
{
    let mut lines: Vec<Vec<char>> = Vec::new();
    if s.containers_over_threshold == 0 {
        assert(rows(lines@) =~= Seq::<Seq<char>>::empty());
        return lines;
    }
    let mut head = to_chars("Large Logs: ");
    push_count(&mut head, s.containers_over_threshold);
    push_str(&mut head, " containers (total ");
    push_bytes(&mut head, s.total_size_bytes);
    push_str(&mut head, ")");
    let ghost head_line = head@;
    lines.push(head);
    assert(rows(lines@) =~= seq![head_line]);
    let ghost listed = first_lines(s.items@, LISTED_ITEMS as nat, log_rule());
    let mut i: usize = 0;
    assert(seq![head_line] + listed.subrange(0, 0) =~= seq![head_line]);
    while i < s.items.len() && i < LISTED_ITEMS
        invariant
            i <= s.items.len(),
            i <= LISTED_ITEMS,
            listed == first_lines(s.items@, LISTED_ITEMS as nat, log_rule()),
            rows(lines@) == seq![head_line] + listed.subrange(0, i as int),
        decreases s.items.len() - i,
    {
        let item = &s.items[i];
        let mut line = to_chars("  • ");
        push_str(&mut line, item.container_name.as_str());
        push_str(&mut line, " (");
        push_bytes(&mut line, item.log_size_bytes);
        push_str(&mut line, ", ");
        let mut status: Vec<char> = Vec::new();
        if item.has_rotation {
            push_str(&mut status, "rotated");
        } else {
            push_str(&mut status, "NO ROTATION");
        }
        assert(status@ =~= (if item.has_rotation {
            "rotated"@
        } else {
            "NO ROTATION"@
        }));
        push_all(&mut line, &status);
        push_str(&mut line, ")");
        assert(line@ == listed[i as int]);
        assert(seq![head_line] + listed.subrange(0, i + 1) =~= (seq![head_line] + listed.subrange(
            0,
            i as int,
        )).push(line@));
        push_row(&mut lines, line);
        i += 1;
    }
    assert(listed.subrange(0, i as int) =~= listed);
    push_row(&mut lines, Vec::new());
    assert(rows(lines@) =~= seq![head_line] + listed + seq![blank()]);
    lines
}

fn volume_lines(s: &VolumeStats) -> (r: Vec<Vec<char>>)
    ensures
        rows(r@) == volume_section(*s),
{
    let mut lines: Vec<Vec<char>> = Vec::new();
    if s.count == 0 {
        assert(rows(lines@) =~= Seq::<Seq<char>>::empty());
        return lines;
    }
    let mut head = to_chars("Volumes: ");
    push_count(&mut head, s.count);
    push_str(&mut head, " (total ");
    push_bytes(&mut head, s.total_size_bytes);
    push_str(&mut head, ")");
    let ghost head_line = head@;
    lines.push(head);
    assert(rows(lines@) =~= seq![head_line]);
    let ghost listed = first_lines(s.items@, LISTED_ITEMS as nat, volume_rule());
    let mut i: usize = 0;
    assert(seq![head_line] + listed.subrange(0, 0) =~= seq![head_line]);
    while i < s.items.len() && i < LISTED_ITEMS
        invariant
            i <= s.items.len(),
            i <= LISTED_ITEMS,
            listed == first_lines(s.items@, LISTED_ITEMS as nat, volume_rule()),
            rows(lines@) == seq![head_line] + listed.subrange(0, i as int),
        decreases s.items.len() - i,
    {
        let item = &s.items[i];
        let mut line = to_chars("  • ");
        push_str(&mut line, item.name.as_str());
        push_str(&mut line, " (");
        push_bytes(&mut line, item.size_bytes);
        push_str(&mut line, ", ");
        let mut usage: Vec<char> = Vec::new();
        if item.containers_using.len() == 0 {
            push_str(&mut usage, "UNUSED");
            assert(usage@ =~= "UNUSED"@);
        } else {
            push_str(&mut usage, "used by ");
            let names = from_strings(&item.containers_using);
            let joined = join(&names, ", ");
            push_all(&mut usage, &joined);
            assert(usage@ =~= "used by "@ + join_with(texts(item.containers_using@), ", "@));
        }
        push_all(&mut line, &usage);
        push_str(&mut line, ")");
        assert(line@ == listed[i as int]);
        assert(seq![head_line] + listed.subrange(0, i + 1) =~= (seq![head_line] + listed.subrange(
            0,
            i as int,
        )).push(line@));
        push_row(&mut lines, line);
        i += 1;
    }
    assert(listed.subrange(0, i as int) =~= listed);
    push_row(&mut lines, Vec::new());
    assert(rows(lines@) =~= seq![head_line] + listed + seq![blank()]);
    lines
}

fn cleanup_actions(
    report: &CleanupReport,
    server_name: &str,
    executed: bool,
    link: &Option<WebhookLink>,
) -> (r: Vec<NtfyAction>)
    ensures
        action_views(r@) == cleanup_actions_spec(*report, server_name@, executed, *link),
        r@.len() <= crate::notify::MAX_ACTIONS,
{
    let mut actions: Vec<NtfyAction> = Vec::new();
    assert(action_views(actions@) =~= Seq::<ActionView>::empty());
    match link {
        Some(l) => {
            if l.secret.as_str().unicode_len() > 0 && !executed
                && report.total_reclaimable_bytes > 0 {
                if report.dangling_images.count > 0 || report.unused_networks.count > 0 {
                    let url = build_action_url(l, "/webhook/cleanup/safe", server_name);
                    let a = NtfyAction::http_post("Safe Cleanup", url.as_str());
                    assert(action_views(actions@.push(a)) =~= action_views(actions@).push(a@));
                    actions.push(a);
                }
                if report.unused_images.count > 0 {
                    let url = build_action_url(
                        l,
                        "/webhook/cleanup/images/prune-unused",
                        server_name,
                    );
                    let a = NtfyAction::http_post("Prune Unused Images", url.as_str());
                    assert(action_views(actions@.push(a)) =~= action_views(actions@).push(a@));
                    actions.push(a);
                }
            }
        },
        None => {},
    }
    actions
}

/// Why a cleanup is not executed on a server, if it is not: execution is
/// for the local server only; a remote server is analyzed.
pub open spec fn refusal_spec(
    server_name: Seq<char>,
    is_local: bool,
    execute_safe: bool,
    prune_unused: bool,
) -> Option<Seq<char>> {
    if !is_local && (execute_safe || prune_unused) {
        Some(
            "Cleanup execution not supported for remote servers. Analysis only for "@
                + server_name,
        )
    } else {
        None
    }
}

pub fn execution_refusal(server_name: &str, is_local: bool, execute_safe: bool, prune_unused: bool) -> (r:
    Option<String>)
    ensures
        match r {
            Some(why) => refusal_spec(server_name@, is_local, execute_safe, prune_unused) == Some(
                why@,
            ),
            None => refusal_spec(server_name@, is_local, execute_safe, prune_unused) is None,
        },
{
    if !is_local && (execute_safe || prune_unused) {
        let mut out = to_chars(
            "Cleanup execution not supported for remote servers. Analysis only for ",
        );
        push_str(&mut out, server_name);
        Some(from_chars(&out))
    } else {
        None
    }
}

/// The notification of a cleanup that failed on a server: its title and
/// its message.
pub fn failure_notification(server_name: &str, error: &str) -> (r: (String, String))
    ensures
        r.0@ == server_name@ + " - Docker Cleanup: Error"@,
        r.1@ == "❌ Error: "@ + error@,
{
    let mut title = to_chars(server_name);
    push_str(&mut title, " - Docker Cleanup: Error");
    let mut message = to_chars("❌ Error: ");
    push_str(&mut message, error);
    (from_chars(&title), from_chars(&message))
}

/// Assembles the cleanup notification of a server from its analysis and
/// from the lines that tell what a cleanup, if one ran, has done.
pub fn cleanup_notification(
    server_name: &str,
    report: &CleanupReport,
    execution_summary: &Vec<String>,
    link: &Option<WebhookLink>,
) -> (r: CleanupNotification)
    ensures
        r.title@ == title_spec(server_name@, execution_summary@.len() > 0),
        r.body@ == join_with(body_lines(*report, texts(execution_summary@)), "\n"@),
        action_views(r.actions@) == cleanup_actions_spec(
            *report,
            server_name@,
            execution_summary@.len() > 0,
            *link,
        ),
        r.actions@.len() <= crate::notify::MAX_ACTIONS,
{
    let executed = execution_summary.len() > 0;
    let mut title = to_chars(server_name);
    if executed {
        push_str(&mut title, " - Docker Cleanup: Complete");
    } else {
        push_str(&mut title, " - Docker Cleanup: Analysis");
    }
    let mut lines: Vec<Vec<char>> = Vec::new();
    assert(rows(lines@) =~= Seq::<Seq<char>>::empty());
    if executed {
        push_row(&mut lines, to_chars("=== Cleanup Actions ==="));
        append_rows(&mut lines, from_strings(execution_summary));
        push_row(&mut lines, Vec::new());
        assert(rows(lines@) =~= actions_section(texts(execution_summary@)));
    }
    assert(rows(lines@) == actions_section(texts(execution_summary@)));
    let mut head: Vec<Vec<char>> = Vec::new();
    head.push(to_chars("=== Analysis Report ==="));
    let mut total = to_chars("Total reclaimable: ");
    push_bytes(&mut total, report.total_reclaimable_bytes);
    head.push(total);
    head.push(Vec::new());
    assert(rows(head@) =~= head_section(*report));
    append_rows(&mut lines, head);
    append_rows(&mut lines, image_lines(&report.dangling_images, true));
    append_rows(&mut lines, image_lines(&report.unused_images, false));
    append_rows(&mut lines, network_lines(&report.unused_networks));
    append_rows(&mut lines, build_cache_lines(&report.build_cache));
    append_rows(&mut lines, container_lines(&report.stopped_containers));
    append_rows(&mut lines, layer_section_lines(&report.layer_analysis));
    append_rows(&mut lines, log_lines(&report.large_logs));
    append_rows(&mut lines, volume_lines(&report.volumes));
    let body = join(&lines, "\n");
    CleanupNotification {
        title: from_chars(&title),
        body: from_chars(&body),
        actions: cleanup_actions(report, server_name, executed, link),
    }
}

} // verus!

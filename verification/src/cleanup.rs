//! The records of a cleanup analysis and of a cleanup run.

use crate::numbers::{capped, decimal, push_count};
use crate::sizes::{format_bytes_spec, push_bytes};
use crate::text::{from_chars, is_text, push_all, push_str, slice, to_chars};
use crate::tokens::{join, join_with, push_row, rows};
use vstd::prelude::*;

verus! {

/// A signed upstream size as an unsigned count: negative sizes count as 0.
pub open spec fn clamped(size: i64) -> u64 {
    if size < 0 {
        0
    } else {
        size as u64
    }
}

pub fn clamp_size(size: i64) -> (r: u64)
    ensures
        r == clamped(size),
{
    if size < 0 {
        0
    } else {
        size as u64
    }
}

/// Statistics about images.
#[derive(Debug, Clone)]
pub struct ImageStats {
    pub count: usize,
    pub total_size_bytes: u64,
    pub items: Vec<ImageInfo>,
}

/// Information about a single Docker image.
#[derive(Debug, Clone)]
pub struct ImageInfo {
    pub repository: String,
    pub tag: String,
    pub image_id: String,
    pub size_bytes: u64,
    pub created_timestamp: i64,
}

/// Statistics about Docker networks.
#[derive(Debug, Clone)]
pub struct NetworkStats {
    pub count: usize,
    pub items: Vec<NetworkInfo>,
}

/// Information about a single Docker network.
#[derive(Debug, Clone)]
pub struct NetworkInfo {
    pub id: String,
    pub name: String,
    pub driver: String,
    pub created_timestamp: i64,
}

/// Statistics about container logs.
#[derive(Debug, Clone)]
pub struct LogStats {
    pub total_size_bytes: u64,
    pub containers_over_threshold: usize,
    pub items: Vec<LogInfo>,
}

/// Information about a single container's logs.
#[derive(Debug, Clone)]
pub struct LogInfo {
    pub container_name: String,
    pub container_id: String,
    pub log_size_bytes: u64,
    pub has_rotation: bool,
}

/// Statistics about Docker volumes.
#[derive(Debug, Clone)]
pub struct VolumeStats {
    pub count: usize,
    pub total_size_bytes: u64,
    pub items: Vec<VolumeInfo>,
}

/// Information about a single Docker volume.
#[derive(Debug, Clone)]
pub struct VolumeInfo {
    pub name: String,
    pub driver: String,
    pub mount_point: String,
    pub size_bytes: u64,
    pub created_timestamp: i64,
    pub containers_using: Vec<String>,
}

/// Statistics about Docker build cache.
#[derive(Debug, Clone)]
pub struct BuildCacheStats {
    pub total_size_bytes: u64,
    pub reclaimable_bytes: u64,
    pub items: Vec<BuildCacheItem>,
}

/// Information about a build cache item.
#[derive(Debug, Clone)]
pub struct BuildCacheItem {
    pub id: String,
    /// "regular", "internal", "frontend", "source"
    pub cache_type: String,
    pub size_bytes: u64,
    pub created_timestamp: i64,
    pub last_used_timestamp: Option<i64>,
    pub in_use: bool,
    pub shared: bool,
}

/// Statistics about stopped containers.
#[derive(Debug, Clone)]
pub struct ContainerStats {
    pub count: usize,
    pub total_size_bytes: u64,
    pub items: Vec<ContainerInfo>,
}

/// Information about a stopped container.
#[derive(Debug, Clone)]
pub struct ContainerInfo {
    pub id: String,
    pub name: String,
    pub image: String,
    pub size_bytes: u64,
    pub created_timestamp: i64,
    pub stopped_timestamp: Option<i64>,
    pub exit_code: Option<i64>,
    pub status: String,
}

/// A layer that two or more images share.
#[derive(Debug, Clone)]
pub struct SharedLayer {
    pub layer_id: String,
    pub size_bytes: u64,
    pub shared_by_count: usize,
    pub images_using: Vec<String>,
    pub created_timestamp: i64,
}

/// How images share their layers.
///
/// The efficiency is held exactly, as the bytes that sharing saves out of
/// the bytes that the images would take without sharing.
#[derive(Debug, Clone)]
pub struct LayerAnalysis {
    /// Sorted by size, largest first, then by the number of sharing images.
    pub shared_layers: Vec<SharedLayer>,
    pub total_shared_bytes: u64,
    pub total_unique_bytes: u64,
    /// The sum of the images' sizes, each counted whole.
    pub theoretical_bytes: u64,
    /// What sharing saves: `theoretical_bytes` less the shared and unique
    /// bytes, and 0 where that would be negative or nothing was found.
    pub saved_bytes: u64,
}

/// Complete cleanup report for a single server.
#[derive(Debug, Clone)]
pub struct CleanupReport {
    pub server: String,
    pub dangling_images: ImageStats,
    pub unused_images: ImageStats,
    pub unused_networks: NetworkStats,
    pub build_cache: BuildCacheStats,
    pub stopped_containers: ContainerStats,
    pub large_logs: LogStats,
    pub volumes: VolumeStats,
    pub layer_analysis: LayerAnalysis,
    pub total_reclaimable_bytes: u64,
}

/// Statistics from a prune operation.
#[derive(Debug, Clone, Copy, PartialEq, Eq, Structural)]
pub struct PruneStats {
    pub count: usize,
    pub space_reclaimed: u64,
}

impl Default for ImageStats {
    fn default() -> (r: Self)
        ensures
            r.count == 0,
            r.total_size_bytes == 0,
            r.items@.len() == 0,
    {
        ImageStats { count: 0, total_size_bytes: 0, items: Vec::new() }
    }
}

impl Default for NetworkStats {
    fn default() -> (r: Self)
        ensures
            r.count == 0,
            r.items@.len() == 0,
    {
        NetworkStats { count: 0, items: Vec::new() }
    }
}

impl Default for LogStats {
    fn default() -> (r: Self)
        ensures
            r.total_size_bytes == 0,
            r.containers_over_threshold == 0,
            r.items@.len() == 0,
    {
        LogStats { total_size_bytes: 0, containers_over_threshold: 0, items: Vec::new() }
    }
}

impl Default for VolumeStats {
    fn default() -> (r: Self)
        ensures
            r.count == 0,
            r.total_size_bytes == 0,
            r.items@.len() == 0,
    {
        VolumeStats { count: 0, total_size_bytes: 0, items: Vec::new() }
    }
}

impl Default for BuildCacheStats {
    fn default() -> (r: Self)
        ensures
            r.total_size_bytes == 0,
            r.reclaimable_bytes == 0,
            r.items@.len() == 0,
    {
        BuildCacheStats { total_size_bytes: 0, reclaimable_bytes: 0, items: Vec::new() }
    }
}

impl Default for ContainerStats {
    fn default() -> (r: Self)
        ensures
            r.count == 0,
            r.total_size_bytes == 0,
            r.items@.len() == 0,
    {
        ContainerStats { count: 0, total_size_bytes: 0, items: Vec::new() }
    }
}

impl Default for LayerAnalysis {
    fn default() -> (r: Self)
        ensures
            r.shared_layers@.len() == 0,
            r.total_shared_bytes == 0,
            r.total_unique_bytes == 0,
            r.theoretical_bytes == 0,
            r.saved_bytes == 0,
    {
        LayerAnalysis {
            shared_layers: Vec::new(),
            total_shared_bytes: 0,
            total_unique_bytes: 0,
            theoretical_bytes: 0,
            saved_bytes: 0,
        }
    }
}

impl Default for PruneStats {
    fn default() -> (r: Self)
        ensures
            r.count == 0,
            r.space_reclaimed == 0,
    {
        PruneStats { count: 0, space_reclaimed: 0 }
    }
}

impl LayerAnalysis {
    /// The whole percents of space that sharing saves: 0 where there is no
    /// data.
    pub open spec fn efficiency_spec(self) -> u64 {
        if self.theoretical_bytes == 0 {
            0
        } else {
            capped((self.saved_bytes as nat * 100) / (self.theoretical_bytes as nat))
        }
    }

    pub fn efficiency_percent(&self) -> (r: u64)
        ensures
            r == self.efficiency_spec(),
            self.saved_bytes <= self.theoretical_bytes ==> r <= 100,
    {
        if self.theoretical_bytes == 0 {
            0
        } else {
            let q: u128 = (self.saved_bytes as u128 * 100) / (self.theoretical_bytes as u128);
            proof {
                let s = self.saved_bytes as int;
                let t = self.theoretical_bytes as int;
                assert(s <= t ==> (s * 100) / t <= 100) by (nonlinear_arith)
                    requires
                        t >= 1,
                        s >= 0,
                ;
            }
            if q > 0xffff_ffff_ffff_ffff {
                u64::MAX
            } else {
                q as u64
            }
        }
    }
}

impl ImageInfo {
    /// What an image is called in a report: `repository:tag`, or `<none>`
    /// with the first twelve characters of its id where it has no
    /// repository.
    pub open spec fn display_name_spec(self) -> Seq<char> {
        if self.repository@.len() == 0 || self.repository@ == "<none>"@ {
            "<none> ("@ + short_id(self.image_id@) + ")"@
        } else {
            self.repository@ + ":"@ + self.tag@
        }
    }

    pub fn display_name(&self) -> (r: String)
        ensures
            r@ == self.display_name_spec(),
    {
        let repo = to_chars(self.repository.as_str());
        if repo.len() == 0 || is_text(&repo, "<none>") {
            let id = to_chars(self.image_id.as_str());
            let short = short_id_of(&id);
            let mut out = to_chars("<none> (");
            push_all(&mut out, &short);
            push_str(&mut out, ")");
            from_chars(&out)
        } else {
            let mut out = repo;
            push_str(&mut out, ":");
            push_str(&mut out, self.tag.as_str());
            from_chars(&out)
        }
    }
}

/// The first twelve characters of an id, or all of it where it is shorter.
pub open spec fn short_id(id: Seq<char>) -> Seq<char> {
    if id.len() <= 12 {
        id
    } else {
        id.subrange(0, 12)
    }
}

pub fn short_id_of(id: &Vec<char>) -> (r: Vec<char>)
    ensures
        r@ == short_id(id@),
{
    if id.len() <= 12 {
        let r = slice(id, 0, id.len());
        assert(r@ =~= id@);
        r
    } else {
        slice(id, 0, 12)
    }
}

impl CleanupReport {
    /// An empty report for `server`.
    pub fn new(server: String) -> (r: Self)
        ensures
            r.server@ == server@,
            r.dangling_images.count == 0 && r.dangling_images.total_size_bytes == 0
                && r.dangling_images.items@.len() == 0,
            r.unused_images.count == 0 && r.unused_images.total_size_bytes == 0
                && r.unused_images.items@.len() == 0,
            r.unused_networks.count == 0 && r.unused_networks.items@.len() == 0,
            r.build_cache.total_size_bytes == 0 && r.build_cache.reclaimable_bytes == 0
                && r.build_cache.items@.len() == 0,
            r.stopped_containers.count == 0 && r.stopped_containers.total_size_bytes == 0
                && r.stopped_containers.items@.len() == 0,
            r.large_logs.total_size_bytes == 0 && r.large_logs.containers_over_threshold == 0
                && r.large_logs.items@.len() == 0,
            r.volumes.count == 0 && r.volumes.total_size_bytes == 0 && r.volumes.items@.len() == 0,
            r.layer_analysis.shared_layers@.len() == 0 && r.layer_analysis.saved_bytes == 0
                && r.layer_analysis.theoretical_bytes == 0 && r.layer_analysis.total_shared_bytes
                == 0 && r.layer_analysis.total_unique_bytes == 0,
            r.total_reclaimable_bytes == 0,
    {
        CleanupReport {
            server,
            dangling_images: ImageStats::default(),
            unused_images: ImageStats::default(),
            unused_networks: NetworkStats::default(),
            build_cache: BuildCacheStats::default(),
            stopped_containers: ContainerStats::default(),
            large_logs: LogStats::default(),
            volumes: VolumeStats::default(),
            layer_analysis: LayerAnalysis::default(),
            total_reclaimable_bytes: 0,
        }
    }

    /// The bytes that a safe cleanup would free: dangling images, build
    /// cache and stopped containers. Unused images need confirmation,
    /// networks have no size, logs and volumes are advisory.
    pub open spec fn reclaimable_spec(self) -> nat {
        self.dangling_images.total_size_bytes as nat + self.build_cache.total_size_bytes as nat
            + self.stopped_containers.total_size_bytes as nat
    }

    /// Calculate total reclaimable space (safe to auto-cleanup).
    pub fn calculate_reclaimable(&mut self)
        ensures
            final(self).total_reclaimable_bytes == capped(old(self).reclaimable_spec()),
            old(self).reclaimable_spec() <= u64::MAX ==> final(self).total_reclaimable_bytes
                == old(self).dangling_images.total_size_bytes + old(
                self,
            ).build_cache.total_size_bytes + old(self).stopped_containers.total_size_bytes,
            final(self).server == old(self).server,
            final(self).dangling_images == old(self).dangling_images,
            final(self).unused_images == old(self).unused_images,
            final(self).unused_networks == old(self).unused_networks,
            final(self).build_cache == old(self).build_cache,
            final(self).stopped_containers == old(self).stopped_containers,
            final(self).large_logs == old(self).large_logs,
            final(self).volumes == old(self).volumes,
            final(self).layer_analysis == old(self).layer_analysis,
    {
        let a = self.dangling_images.total_size_bytes;
        let b = self.build_cache.total_size_bytes;
        let c = self.stopped_containers.total_size_bytes;
        self.total_reclaimable_bytes = a.saturating_add(b).saturating_add(c);
    }
}

/// Result of cleanup execution.
#[derive(Debug, Clone)]
pub struct CleanupResult {
    pub dangling_images_removed: usize,
    pub unused_images_removed: usize,
    pub networks_removed: usize,
    pub build_cache_reclaimed: u64,
    pub stopped_containers_removed: usize,
    pub space_reclaimed_bytes: u64,
    pub errors: Vec<String>,
}

impl Default for CleanupResult {
    fn default() -> (r: Self)
        ensures
            r.dangling_images_removed == 0,
            r.unused_images_removed == 0,
            r.networks_removed == 0,
            r.build_cache_reclaimed == 0,
            r.stopped_containers_removed == 0,
            r.space_reclaimed_bytes == 0,
            r.errors@.len() == 0,
    {
        CleanupResult {
            dangling_images_removed: 0,
            unused_images_removed: 0,
            networks_removed: 0,
            build_cache_reclaimed: 0,
            stopped_containers_removed: 0,
            space_reclaimed_bytes: 0,
            errors: Vec::new(),
        }
    }
}

/// `list` with `line` added where `cond` holds.
pub open spec fn push_if(list: Seq<Seq<char>>, cond: bool, line: Seq<char>) -> Seq<Seq<char>> {
    if cond {
        list.push(line)
    } else {
        list
    }
}

impl CleanupResult {
    /// The parts of the summary, one for each figure that is not zero.
    pub open spec fn summary_parts(self) -> Seq<Seq<char>> {
        let so_far0 = Seq::<Seq<char>>::empty();
        let so_far1 = push_if(
            so_far0,
            self.dangling_images_removed > 0,
            "Removed "@ + decimal(self.dangling_images_removed as nat) + " dangling images"@,
        );
        let so_far2 = push_if(
            so_far1,
            self.unused_images_removed > 0,
            "Removed "@ + decimal(self.unused_images_removed as nat) + " unused images"@,
        );
        let so_far3 = push_if(
            so_far2,
            self.networks_removed > 0,
            "Removed "@ + decimal(self.networks_removed as nat) + " unused networks"@,
        );
        let so_far4 = push_if(
            so_far3,
            self.build_cache_reclaimed > 0,
            "Cleared "@ + format_bytes_spec(self.build_cache_reclaimed) + " build cache"@,
        );
        let so_far5 = push_if(
            so_far4,
            self.stopped_containers_removed > 0,
            "Removed "@ + decimal(self.stopped_containers_removed as nat) + " stopped containers"@,
        );
        let so_far6 = push_if(
            so_far5,
            self.space_reclaimed_bytes > 0,
            "Reclaimed "@ + format_bytes_spec(self.space_reclaimed_bytes),
        );
        push_if(so_far6, self.errors@.len() > 0, decimal(self.errors@.len()) + " errors"@)
    }

    /// The summary of a run: its parts joined by commas, or a sentence
    /// saying that nothing was done.
    pub open spec fn summary_spec(self) -> Seq<char> {
        if self.summary_parts().len() == 0 {
            "No cleanup performed"@
        } else {
            join_with(self.summary_parts(), ", "@)
        }
    }

    pub fn format_summary(&self) -> (r: String)
        ensures
            r@ == self.summary_spec(),
    {
        let mut parts: Vec<Vec<char>> = Vec::new();
        assert(rows(parts@) =~= Seq::<Seq<char>>::empty());
        if self.dangling_images_removed > 0 {
            let mut p = to_chars("Removed ");
            push_count(&mut p, self.dangling_images_removed);
            push_str(&mut p, " dangling images");
            push_row(&mut parts, p);
        }
        if self.unused_images_removed > 0 {
            let mut p = to_chars("Removed ");
            push_count(&mut p, self.unused_images_removed);
            push_str(&mut p, " unused images");
            push_row(&mut parts, p);
        }
        if self.networks_removed > 0 {
            let mut p = to_chars("Removed ");
            push_count(&mut p, self.networks_removed);
            push_str(&mut p, " unused networks");
            push_row(&mut parts, p);
        }
        if self.build_cache_reclaimed > 0 {
            let mut p = to_chars("Cleared ");
            push_bytes(&mut p, self.build_cache_reclaimed);
            push_str(&mut p, " build cache");
            push_row(&mut parts, p);
        }
        if self.stopped_containers_removed > 0 {
            let mut p = to_chars("Removed ");
            push_count(&mut p, self.stopped_containers_removed);
            push_str(&mut p, " stopped containers");
            push_row(&mut parts, p);
        }
        if self.space_reclaimed_bytes > 0 {
            let mut p = to_chars("Reclaimed ");
            push_bytes(&mut p, self.space_reclaimed_bytes);
            push_row(&mut parts, p);
        }
        if self.errors.len() > 0 {
            let mut p: Vec<char> = Vec::new();
            push_count(&mut p, self.errors.len());
            push_str(&mut p, " errors");
            assert(p@ =~= decimal(self.errors@.len()) + " errors"@);
            push_row(&mut parts, p);
        }
        assert(rows(parts@) == self.summary_parts());
        if parts.len() == 0 {
            "No cleanup performed".to_string()
        } else {
            let joined = join(&parts, ", ");
            from_chars(&joined)
        }
    }
}

} // verus!

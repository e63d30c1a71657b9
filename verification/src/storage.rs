//! The analyzers of logs, volumes and image layers.

use crate::analyze::{
    lemma_total_push,
    opt_texts,
    opt_view,
    or_text,
    text_or,
    total,
    ContainerRecord,
};
use crate::cleanup::{LogInfo, LogStats, VolumeInfo, VolumeStats};
use crate::numbers::capped;
use crate::health::{container_name_spec, set_holds, without_leading_slashes};
use crate::numbers::{parse_u64, unsigned_value};
use crate::sizes::{parse_size_threshold, threshold_value};
use crate::sorting::{lemma_sorted_maps, order, sort, sorted_by, Listed};
use crate::text::{from_chars, str_same, to_chars};
use crate::timestamps::{api_timestamp, parse_api_timestamp};
use crate::tokens::{lemma_filter_map_step, rows, texts, words, words_of};
use vstd::prelude::*;

verus! {

// ---------------------------------------------------------------------------
// Logs
// ---------------------------------------------------------------------------

/// The log size from which a container is reported, where none is
/// configured: 100 MiB.
pub const DEFAULT_LOG_THRESHOLD: u64 = 104857600;

/// The log threshold that a setting gives: what it denotes as a size, or
/// the default where there is no setting or it denotes no size that fits.
pub open spec fn log_threshold_spec(setting: Option<Seq<char>>) -> u64 {
    match setting {
        Some(s) => match threshold_value(s) {
            Some(n) => if n <= u64::MAX {
                n as u64
            } else {
                DEFAULT_LOG_THRESHOLD
            },
            None => DEFAULT_LOG_THRESHOLD,
        },
        None => DEFAULT_LOG_THRESHOLD,
    }
}

pub fn log_threshold(setting: Option<&str>) -> (r: u64)
    ensures
        r == log_threshold_spec(
            match setting {
                Some(s) => Some(s@),
                None => None,
            },
        ),
{
    match setting {
        Some(s) => match parse_size_threshold(s) {
            Ok(n) => n,
            Err(_) => DEFAULT_LOG_THRESHOLD,
        },
        None => DEFAULT_LOG_THRESHOLD,
    }
}

/// What is known of a container's log once the container was inspected and
/// its log file measured.
#[derive(Debug, Clone)]
pub struct LogRecord {
    pub id: Option<String>,
    pub names: Option<Vec<String>>,
    /// The keys of the log configuration, where there is one.
    pub log_config_keys: Option<Vec<String>>,
    /// The path of the log file, where the inspection gave one.
    pub log_path: Option<String>,
    /// The size of the log file, where it could be measured.
    pub log_size: Option<u64>,
}

pub struct LogInfoView {
    pub container_name: Seq<char>,
    pub container_id: Seq<char>,
    pub log_size_bytes: u64,
    pub has_rotation: bool,
}

impl View for LogInfo {
    type V = LogInfoView;

    open spec fn view(&self) -> LogInfoView {
        LogInfoView {
            container_name: self.container_name@,
            container_id: self.container_id@,
            log_size_bytes: self.log_size_bytes,
            has_rotation: self.has_rotation,
        }
    }
}

pub open spec fn log_view() -> spec_fn(LogInfo) -> LogInfoView {
    |l: LogInfo| l@
}

pub open spec fn larger_log() -> spec_fn(LogInfoView, LogInfoView) -> bool {
    |a: LogInfoView, b: LogInfoView| a.log_size_bytes >= b.log_size_bytes
}

impl Listed for LogInfo {
    open spec fn precedes(a: Self, b: Self) -> bool {
        a.log_size_bytes >= b.log_size_bytes
    }

    fn may_precede(&self, other: &Self) -> (r: bool) {
        self.log_size_bytes >= other.log_size_bytes
    }
}

/// Whether a log file was found and measured.
pub open spec fn is_measured(r: LogRecord) -> bool {
    or_text(r.log_path, ""@).len() > 0 && r.log_size is Some
}

/// The size that a record adds to the total: its log's size where that was
/// measured.
pub open spec fn measured_size() -> spec_fn(LogRecord) -> u64 {
    |r: LogRecord| if is_measured(r) {
        r.log_size->0
    } else {
        0
    }
}

/// Whether the log configuration limits the log: it holds `max-size` or
/// `max-file`.
pub open spec fn rotates(keys: Option<Seq<Seq<char>>>) -> bool {
    keys is Some && (keys->0.contains("max-size"@) || keys->0.contains("max-file"@))
}

/// What a record adds to the large logs: nothing unless its log was
/// measured and is at least as large as the threshold.
pub open spec fn log_entry(r: LogRecord, threshold: u64) -> Option<LogInfoView> {
    if is_measured(r) && r.log_size->0 >= threshold {
        Some(
            LogInfoView {
                container_name: container_name_spec(opt_texts(r.names), or_text(r.id, ""@)),
                container_id: or_text(r.id, ""@),
                log_size_bytes: r.log_size->0,
                has_rotation: rotates(opt_texts(r.log_config_keys)),
            },
        )
    } else {
        None
    }
}

pub open spec fn log_rule(threshold: u64) -> spec_fn(LogRecord) -> Option<LogInfoView> {
    |r: LogRecord| log_entry(r, threshold)
}

/// Analyze container log sizes: the total over all logs that were measured,
/// and the containers whose log is at least as large as the threshold,
/// largest first.
pub fn analyze_large_logs(records: &Vec<LogRecord>, threshold_bytes: u64) -> (r: LogStats)
    ensures
        r.items@.map_values(log_view()) == sorted_by(
            records@.filter_map(log_rule(threshold_bytes)),
            larger_log(),
        ),
        r.containers_over_threshold == r.items@.len(),
        r.total_size_bytes == capped(total(records@.map_values(measured_size()))),
{
    let mut items: Vec<LogInfo> = Vec::new();
    let mut sum: u64 = 0;
    let mut i: usize = 0;
    let ghost rule = log_rule(threshold_bytes);
    assert(records@.subrange(0, 0) =~= Seq::<LogRecord>::empty());
    assert(items@.map_values(log_view()) =~= Seq::<LogInfoView>::empty());
    assert(records@.map_values(measured_size()).subrange(0, 0) =~= Seq::<u64>::empty());
    while i < records.len()
        invariant
            i <= records.len(),
            rule == log_rule(threshold_bytes),
            items@.map_values(log_view()) == records@.subrange(0, i as int).filter_map(rule),
            sum == capped(total(records@.map_values(measured_size()).subrange(0, i as int))),
        decreases records.len() - i,
    {
        proof {
            lemma_filter_map_step(records@, i as int, rule);
        }
        let r = &records[i];
        let path = text_or(&r.log_path, "");
        let found = path.as_str().unicode_len() > 0;
        let size: u64 = match r.log_size {
            Some(s) => if found {
                s
            } else {
                0
            },
            None => 0,
        };
        proof {
            let sizes = records@.map_values(measured_size());
            lemma_total_push(sizes.subrange(0, i as int), size);
            assert(sizes.subrange(0, i + 1) =~= sizes.subrange(0, i as int).push(size));
        }
        sum = sum.saturating_add(size);
        if found && r.log_size.is_some() && size >= threshold_bytes {
            let id = text_or(&r.id, "");
            let has_rotation = match &r.log_config_keys {
                Some(keys) => set_holds(keys, "max-size") || set_holds(keys, "max-file"),
                None => false,
            };
            let item = LogInfo {
                container_name: crate::health::container_name(&r.names, id.as_str()),
                container_id: id,
                log_size_bytes: size,
                has_rotation,
            };
            let ghost before = items@.map_values(log_view());
            items.push(item);
            assert(items@.map_values(log_view()) =~= before.push(item@));
        }
        i += 1;
    }
    assert(records@.subrange(0, records@.len() as int) =~= records@);
    assert(records@.map_values(measured_size()).subrange(0, records@.len() as int)
        =~= records@.map_values(measured_size()));
    let ghost collected = items@;
    let sorted_items = sort(items);
    proof {
        assert forall|a: LogInfo, b: LogInfo| #[trigger]
            order::<LogInfo>()(a, b) == larger_log()(log_view()(a), log_view()(b)) by {}
        lemma_sorted_maps(collected, log_view(), order::<LogInfo>(), larger_log());
    }
    LogStats {
        total_size_bytes: sum,
        containers_over_threshold: sorted_items.len(),
        items: sorted_items,
    }
}

// ---------------------------------------------------------------------------
// Volumes
// ---------------------------------------------------------------------------

/// How many volumes a report lists.
pub const LISTED_VOLUMES: usize = 10;

/// The size that the output of `du -sb` gives: its first field, or 0 where
/// that is no number that fits.
pub open spec fn du_size(output: Seq<char>) -> u64 {
    if words_of(output).len() == 0 {
        0
    } else {
        match unsigned_value(words_of(output)[0]) {
            Some(n) => if n <= u64::MAX {
                n as u64
            } else {
                0
            },
            None => 0,
        }
    }
}

pub fn parse_du_output(output: &str) -> (r: u64)
    ensures
        r == du_size(output@),
{
    let raw = to_chars(output);
    let fields = words(&raw);
    assert(rows(fields@).len() == fields@.len());
    if fields.len() == 0 {
        return 0;
    }
    assert(rows(fields@)[0] == fields@[0]@);
    match parse_u64(&fields[0]) {
        Some(n) => n,
        None => 0,
    }
}

/// A volume as a listing reports it, with its size as measured; 0 where it
/// could not be measured.
#[derive(Debug, Clone)]
pub struct VolumeRecord {
    pub name: String,
    pub driver: String,
    pub mount_point: String,
    pub created_at: Option<String>,
    pub size_bytes: u64,
}

pub struct VolumeInfoView {
    pub name: Seq<char>,
    pub driver: Seq<char>,
    pub mount_point: Seq<char>,
    pub size_bytes: u64,
    pub created_timestamp: i64,
    pub containers_using: Seq<Seq<char>>,
}

impl View for VolumeInfo {
    type V = VolumeInfoView;

    open spec fn view(&self) -> VolumeInfoView {
        VolumeInfoView {
            name: self.name@,
            driver: self.driver@,
            mount_point: self.mount_point@,
            size_bytes: self.size_bytes,
            created_timestamp: self.created_timestamp,
            containers_using: texts(self.containers_using@),
        }
    }
}

pub open spec fn volume_view() -> spec_fn(VolumeInfo) -> VolumeInfoView {
    |v: VolumeInfo| v@
}

pub open spec fn larger_volume() -> spec_fn(VolumeInfoView, VolumeInfoView) -> bool {
    |a: VolumeInfoView, b: VolumeInfoView| a.size_bytes >= b.size_bytes
}

pub open spec fn volume_size() -> spec_fn(VolumeInfoView) -> u64 {
    |v: VolumeInfoView| v.size_bytes
}

impl Listed for VolumeInfo {
    open spec fn precedes(a: Self, b: Self) -> bool {
        a.size_bytes >= b.size_bytes
    }

    fn may_precede(&self, other: &Self) -> (r: bool) {
        self.size_bytes >= other.size_bytes
    }
}

/// The name under which a container is listed as the user of a volume: its
/// first name without leading slashes, or nothing where it has none.
pub open spec fn user_name(c: ContainerRecord) -> Seq<char> {
    match c.names {
        Some(n) => if n@.len() > 0 {
            without_leading_slashes(n@[0]@)
        } else {
            ""@
        },
        None => ""@,
    }
}

/// The container's name once for each of the first `n` of its mounts that
/// is the volume.
pub open spec fn mentions(c: ContainerRecord, volume: Seq<char>, n: nat) -> Seq<Seq<char>>
    recommends
        n <= c.volume_names@.len(),
    decreases n,
{
    if n == 0 {
        Seq::<Seq<char>>::empty()
    } else if c.volume_names@[n - 1]@ == volume {
        mentions(c, volume, (n - 1) as nat).push(user_name(c))
    } else {
        mentions(c, volume, (n - 1) as nat)
    }
}

/// The containers that mount a volume, in the order of the listing.
pub open spec fn users_of(volume: Seq<char>, containers: Seq<ContainerRecord>) -> Seq<Seq<char>>
    decreases containers.len(),
{
    if containers.len() == 0 {
        Seq::<Seq<char>>::empty()
    } else {
        users_of(volume, containers.drop_last()) + mentions(
            containers.last(),
            volume,
            containers.last().volume_names@.len(),
        )
    }
}

/// A volume as a report holds it.
pub open spec fn volume_entry(v: VolumeRecord, containers: Seq<ContainerRecord>) -> VolumeInfoView {
    VolumeInfoView {
        name: v.name@,
        driver: v.driver@,
        mount_point: v.mount_point@,
        size_bytes: v.size_bytes,
        created_timestamp: api_timestamp(opt_view(v.created_at)),
        containers_using: users_of(v.name@, containers),
    }
}

pub open spec fn volume_rule(containers: Seq<ContainerRecord>) -> spec_fn(
    VolumeRecord,
) -> VolumeInfoView {
    |v: VolumeRecord| volume_entry(v, containers)
}

/// The first `n` items, or all where there are fewer.
pub open spec fn first_items<T>(s: Seq<T>, n: nat) -> Seq<T> {
    if s.len() <= n {
        s
    } else {
        s.subrange(0, n as int)
    }
}

fn user_name_of(c: &ContainerRecord) -> (r: String)
    ensures
        r@ == user_name(*c),
{
    match &c.names {
        Some(n) => {
            if n.len() > 0 {
                let first = to_chars(n[0].as_str());
                return from_chars(&crate::health::strip_leading_slashes(&first));
            }
            "".to_string()
        },
        None => "".to_string(),
    }
}

fn users(volume: &str, containers: &Vec<ContainerRecord>) -> (r: Vec<String>)
    ensures
        texts(r@) == users_of(volume@, containers@),
{
    let mut out: Vec<String> = Vec::new();
    let mut i: usize = 0;
    assert(containers@.subrange(0, 0) =~= Seq::<ContainerRecord>::empty());
    assert(texts(out@) =~= Seq::<Seq<char>>::empty());
    while i < containers.len()
        invariant
            i <= containers.len(),
            texts(out@) == users_of(volume@, containers@.subrange(0, i as int)),
        decreases containers.len() - i,
    {
        assert(containers@.subrange(0, i + 1).drop_last() =~= containers@.subrange(0, i as int));
        assert(containers@.subrange(0, i + 1).last() == containers@[i as int]);
        let c = &containers[i];
        let ghost before = texts(out@);
        let mut k: usize = 0;
        assert(before + mentions(*c, volume@, 0) =~= before);
        while k < c.volume_names.len()
            invariant
                k <= c.volume_names.len(),
                texts(out@) == before + mentions(*c, volume@, k as nat),
            decreases c.volume_names.len() - k,
        {
            if str_same(c.volume_names[k].as_str(), volume) {
                let name = user_name_of(c);
                assert(texts(out@.push(name)) =~= texts(out@).push(name@));
                assert(before + mentions(*c, volume@, (k + 1) as nat) =~= (before + mentions(
                    *c,
                    volume@,
                    k as nat,
                )).push(name@));
                out.push(name);
            }
            k += 1;
        }
        i += 1;
    }
    assert(containers@.subrange(0, containers@.len() as int) =~= containers@);
    out
}

fn volume_items(volumes: &Vec<VolumeRecord>, containers: &Vec<ContainerRecord>) -> (r: (
    Vec<VolumeInfo>,
    u64,
))
    ensures
        r.0@.map_values(volume_view()) == volumes@.map_values(volume_rule(containers@)),
        r.1 == capped(
            total(volumes@.map_values(volume_rule(containers@)).map_values(volume_size())),
        ),
{
    let mut items: Vec<VolumeInfo> = Vec::new();
    let mut sum: u64 = 0;
    let mut i: usize = 0;
    let ghost all = volumes@.map_values(volume_rule(containers@));
    assert(Seq::<VolumeInfoView>::empty().map_values(volume_size()) =~= Seq::<u64>::empty());
    while i < volumes.len()
        invariant
            i <= volumes.len(),
            all == volumes@.map_values(volume_rule(containers@)),
            items@.map_values(volume_view()) =~= all.subrange(0, i as int),
            sum == capped(total(items@.map_values(volume_view()).map_values(volume_size()))),
        decreases volumes.len() - i,
    {
        let v = &volumes[i];
        let item = VolumeInfo {
            name: v.name.clone(),
            driver: v.driver.clone(),
            mount_point: v.mount_point.clone(),
            size_bytes: v.size_bytes,
            created_timestamp: parse_api_timestamp(&v.created_at),
            containers_using: users(v.name.as_str(), containers),
        };
        assert(item@ == volume_entry(volumes@[i as int], containers@));
        let ghost before = items@.map_values(volume_view());
        proof {
            lemma_total_push(before.map_values(volume_size()), item.size_bytes);
        }
        sum = sum.saturating_add(item.size_bytes);
        items.push(item);
        assert(items@.map_values(volume_view()) =~= before.push(item@));
        assert(before.push(item@).map_values(volume_size()) =~= before.map_values(
            volume_size(),
        ).push(item.size_bytes));
        i += 1;
    }
    assert(all.subrange(0, volumes@.len() as int) =~= all);
    (items, sum)
}

fn largest_volumes(items: Vec<VolumeInfo>) -> (r: Vec<VolumeInfo>)
    ensures
        r@.map_values(volume_view()) == first_items(
            sorted_by(items@.map_values(volume_view()), larger_volume()),
            LISTED_VOLUMES as nat,
        ),
{
    let ghost collected = items@;
    let mut sorted_items = sort(items);
    proof {
        assert forall|a: VolumeInfo, b: VolumeInfo| #[trigger]
            order::<VolumeInfo>()(a, b) == larger_volume()(volume_view()(a), volume_view()(b)) by {}
        lemma_sorted_maps(collected, volume_view(), order::<VolumeInfo>(), larger_volume());
    }
    let ghost whole = sorted_items@;
    if sorted_items.len() > LISTED_VOLUMES {
        sorted_items.truncate(LISTED_VOLUMES);
        assert(sorted_items@.map_values(volume_view()) =~= whole.map_values(
            volume_view(),
        ).subrange(0, LISTED_VOLUMES as int));
    }
    sorted_items
}

/// Analyze Docker volumes, for information only: how many there are, what
/// they take in all, and the ten largest with the containers that mount
/// them.
pub fn analyze_volumes(volumes: &Vec<VolumeRecord>, containers: &Vec<ContainerRecord>) -> (r:
    VolumeStats)
    ensures
        r.items@.map_values(volume_view()) == first_items(
            sorted_by(volumes@.map_values(volume_rule(containers@)), larger_volume()),
            LISTED_VOLUMES as nat,
        ),
        r.count == volumes@.len(),
        r.total_size_bytes == capped(
            total(volumes@.map_values(volume_rule(containers@)).map_values(volume_size())),
        ),
{
    let (items, sum) = volume_items(volumes, containers);
    VolumeStats { count: volumes.len(), total_size_bytes: sum, items: largest_volumes(items) }
}

} // verus!

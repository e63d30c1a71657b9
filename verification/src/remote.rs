//! The cleanup engine on a remote server: reading what the `docker` command
//! line writes.
//!
//! Running `docker` over SSH is the caller's part. This module gives the
//! arguments of each command and reads its output.

use crate::analyze::{
    age_days,
    age_in_days,
    cache_size,
    cache_view,
    container_size,
    container_view,
    idle_size,
    image_size,
    image_view,
    is_default_network,
    larger_container,
    larger_image,
    lemma_total_push,
    network_view,
    total,
    BuildCacheView,
    ContainerInfoView,
    ImageInfoView,
    NetworkInfoView,
};
use crate::cleanup::{
    short_id,
    short_id_of,
    BuildCacheItem,
    BuildCacheStats,
    ContainerInfo,
    ContainerStats,
    ImageInfo,
    ImageStats,
    NetworkInfo,
    NetworkStats,
    PruneStats,
};
use crate::docker_size::{docker_size, parse_docker_size};
use crate::json::{
    flag_at_or_false,
    found_or,
    is_json,
    json_flag_at,
    json_is_valid,
    json_length_at,
    json_text_at,
    length_at,
    text_at_or,
};
use crate::numbers::{capped, decimal, push_count, push_wide_decimal, signed_decimal};
use crate::sorting::{lemma_sorted_maps, order, sort, sorted_by};
use crate::text::{
    begins_with,
    char_is_hex_digit,
    contains_str,
    from_chars,
    has_substring,
    is_hex_digit,
    is_text,
    push_str,
    slice,
    starts_with,
    str_same,
    to_chars,
    trim,
    trimmed,
};
use crate::timestamps::{docker_timestamp, parse_docker_timestamp};
use crate::tokens::{
    lemma_filter_map_step,
    lines,
    lines_of,
    push_row,
    rows,
    texts,
    to_strings,
    words,
    words_of,
};
use vstd::prelude::*;

verus! {

/// The `docker` binary on a server.
pub const DOCKER: &'static str = "/usr/bin/docker";

/// Why the output of a listing could not be read.
#[derive(Debug, Clone)]
pub enum RemoteAnalysisError {
    /// A line of the image listing is no JSON.
    ImageJson { line: String },
    /// A line of the network listing is no JSON.
    NetworkJson { line: String },
    /// A line of the container listing is no JSON.
    ContainerJson { line: String },
}

pub open spec fn analysis_error_text(e: RemoteAnalysisError) -> Seq<char> {
    match e {
        RemoteAnalysisError::ImageJson { line } => "Failed to parse Docker JSON output: '"@ + line@
            + "'"@,
        RemoteAnalysisError::NetworkJson { line } => "Failed to parse Docker network JSON: '"@
            + line@ + "'"@,
        RemoteAnalysisError::ContainerJson { line } => "Failed to parse Docker container JSON: '"@
            + line@ + "'"@,
    }
}

impl RemoteAnalysisError {
    pub fn message(&self) -> (r: String)
        ensures
            r@ == analysis_error_text(*self),
    {
        match self {
            RemoteAnalysisError::ImageJson { line } => {
                let mut out = to_chars("Failed to parse Docker JSON output: '");
                push_str(&mut out, line.as_str());
                push_str(&mut out, "'");
                from_chars(&out)
            },
            RemoteAnalysisError::NetworkJson { line } => {
                let mut out = to_chars("Failed to parse Docker network JSON: '");
                push_str(&mut out, line.as_str());
                push_str(&mut out, "'");
                from_chars(&out)
            },
            RemoteAnalysisError::ContainerJson { line } => {
                let mut out = to_chars("Failed to parse Docker container JSON: '");
                push_str(&mut out, line.as_str());
                push_str(&mut out, "'");
                from_chars(&out)
            },
        }
    }
}

// ---------------------------------------------------------------------------
// Records
// ---------------------------------------------------------------------------

/// What a line of output gives as a record: itself trimmed, unless it is
/// blank.
pub open spec fn record_entry(line: Seq<char>) -> Option<Seq<char>> {
    if trimmed(line).len() == 0 {
        None
    } else {
        Some(trimmed(line))
    }
}

pub open spec fn record_rule() -> spec_fn(Seq<char>) -> Option<Seq<char>> {
    |line: Seq<char>| record_entry(line)
}

/// The records of an output: its lines, trimmed, without the blank ones.
pub open spec fn records_of(output: Seq<char>) -> Seq<Seq<char>> {
    lines_of(output).filter_map(record_rule())
}

/// The first record that is no JSON, if there is one.
pub open spec fn first_bad(records: Seq<Seq<char>>) -> Option<Seq<char>>
    decreases records.len(),
{
    if records.len() == 0 {
        None
    } else {
        match first_bad(records.drop_last()) {
            Some(bad) => Some(bad),
            None => if json_is_valid(records.last()) {
                None
            } else {
                Some(records.last())
            },
        }
    }
}

proof fn lemma_first_bad_stays(records: Seq<Seq<char>>, i: int)
    requires
        0 <= i <= records.len(),
        first_bad(records.subrange(0, i)) is Some,
    ensures
        first_bad(records) == first_bad(records.subrange(0, i)),
    decreases records.len() - i,
{
    if i == records.len() {
        assert(records.subrange(0, i) =~= records);
    } else {
        assert(records.drop_last().subrange(0, i) =~= records.subrange(0, i));
        lemma_first_bad_stays(records.drop_last(), i);
    }
}

/// The records of an output.
pub fn records(output: &str) -> (r: Vec<String>)
    ensures
        texts(r@) == records_of(output@),
{
    let raw = to_chars(output);
    let all = lines(&raw);
    let mut found: Vec<Vec<char>> = Vec::new();
    let mut i: usize = 0;
    assert(rows(all@).subrange(0, 0) =~= Seq::<Seq<char>>::empty());
    assert(rows(found@) =~= Seq::<Seq<char>>::empty());
    while i < all.len()
        invariant
            i <= all.len(),
            rows(found@) == rows(all@).subrange(0, i as int).filter_map(record_rule()),
        decreases all.len() - i,
    {
        proof {
            lemma_filter_map_step(rows(all@), i as int, record_rule());
        }
        let t = trim(&all[i]);
        if t.len() > 0 {
            push_row(&mut found, t);
        }
        i += 1;
    }
    assert(rows(all@).subrange(0, all@.len() as int) =~= rows(all@));
    to_strings(&found)
}

/// The first record that is no JSON.
pub fn find_bad_record(list: &Vec<String>) -> (r: Option<String>)
    ensures
        match r {
            Some(bad) => first_bad(texts(list@)) == Some(bad@),
            None => first_bad(texts(list@)) is None,
        },
{
    let mut i: usize = 0;
    assert(texts(list@).subrange(0, 0) =~= Seq::<Seq<char>>::empty());
    while i < list.len()
        invariant
            i <= list.len(),
            first_bad(texts(list@).subrange(0, i as int)) is None,
        decreases list.len() - i,
    {
        assert(texts(list@).subrange(0, i + 1).drop_last() =~= texts(list@).subrange(0, i as int));
        assert(texts(list@).subrange(0, i + 1).last() == list@[i as int]@);
        if !is_json(list[i].as_str()) {
            proof {
                lemma_first_bad_stays(texts(list@), i + 1);
            }
            return Some(list[i].clone());
        }
        i += 1;
    }
    assert(texts(list@).subrange(0, list@.len() as int) =~= texts(list@));
    None
}

// ---------------------------------------------------------------------------
// Dangling images
// ---------------------------------------------------------------------------

/// The arguments that list dangling images, one JSON object per line.
pub fn dangling_images_args() -> (r: Vec<String>)
    ensures
        texts(r@) == seq![
            "image"@,
            "ls"@,
            "--filter"@,
            "dangling=true"@,
            "--format"@,
            "{{json .}}"@,
        ],
{
    let mut a: Vec<String> = Vec::new();
    a.push("image".to_string());
    a.push("ls".to_string());
    a.push("--filter".to_string());
    a.push("dangling=true".to_string());
    a.push("--format".to_string());
    a.push("{{json .}}".to_string());
    assert(texts(a@) =~= seq![
        "image"@,
        "ls"@,
        "--filter"@,
        "dangling=true"@,
        "--format"@,
        "{{json .}}"@,
    ]);
    a
}

/// A dangling image as a record of the listing gives it.
pub open spec fn dangling_record(record: Seq<char>) -> ImageInfoView {
    ImageInfoView {
        repository: "<none>"@,
        tag: "<none>"@,
        image_id: found_or(json_text_at(record, "/ID"@), ""@),
        size_bytes: docker_size(found_or(json_text_at(record, "/Size"@), "0B"@)),
        created_timestamp: 0,
    }
}

pub open spec fn dangling_record_rule() -> spec_fn(Seq<char>) -> ImageInfoView {
    |record: Seq<char>| dangling_record(record)
}

/// The dangling images in the output of the listing, largest first; an
/// error where a line of the output is no JSON.
pub fn analyze_dangling_images_remote(output: &str) -> (r: Result<ImageStats, RemoteAnalysisError>)
    ensures
        match r {
            Ok(stats) => first_bad(records_of(output@)) is None && stats.items@.map_values(
                image_view(),
            ) == sorted_by(records_of(output@).map_values(dangling_record_rule()), larger_image())
                && stats.count == records_of(output@).len() && stats.total_size_bytes == capped(
                total(
                    records_of(output@).map_values(dangling_record_rule()).map_values(image_size()),
                ),
            ),
            Err(e) => e matches RemoteAnalysisError::ImageJson { line } && first_bad(
                records_of(output@),
            ) == Some(line@),
        },
{
    let list = records(output);
    match find_bad_record(&list) {
        Some(bad) => {
            return Err(RemoteAnalysisError::ImageJson { line: bad });
        },
        None => {},
    }
    let ghost all = texts(list@).map_values(dangling_record_rule());
    let mut items: Vec<ImageInfo> = Vec::new();
    let mut sum: u64 = 0;
    let mut i: usize = 0;
    assert(Seq::<ImageInfoView>::empty().map_values(image_size()) =~= Seq::<u64>::empty());
    while i < list.len()
        invariant
            i <= list.len(),
            all == texts(list@).map_values(dangling_record_rule()),
            items@.map_values(image_view()) =~= all.subrange(0, i as int),
            sum == capped(total(items@.map_values(image_view()).map_values(image_size()))),
        decreases list.len() - i,
    {
        let record = list[i].as_str();
        let size_text = text_at_or(record, "/Size", "0B");
        let item = ImageInfo {
            repository: "<none>".to_string(),
            tag: "<none>".to_string(),
            image_id: text_at_or(record, "/ID", ""),
            size_bytes: parse_docker_size(size_text.as_str()),
            created_timestamp: 0,
        };
        assert(item@ == dangling_record(texts(list@)[i as int]));
        let ghost before = items@.map_values(image_view());
        proof {
            lemma_total_push(before.map_values(image_size()), item.size_bytes);
        }
        sum = sum.saturating_add(item.size_bytes);
        items.push(item);
        assert(items@.map_values(image_view()) =~= before.push(item@));
        assert(before.push(item@).map_values(image_size()) =~= before.map_values(
            image_size(),
        ).push(item.size_bytes));
        i += 1;
    }
    assert(all.subrange(0, list@.len() as int) =~= all);
    let ghost collected = items@;
    let sorted_items = sort(items);
    proof {
        assert forall|a: ImageInfo, b: ImageInfo| #[trigger]
            order::<ImageInfo>()(a, b) == larger_image()(image_view()(a), image_view()(b)) by {}
        lemma_sorted_maps(collected, image_view(), order::<ImageInfo>(), larger_image());
    }
    Ok(ImageStats { count: list.len(), total_size_bytes: sum, items: sorted_items })
}

// ---------------------------------------------------------------------------
// Unused networks
// ---------------------------------------------------------------------------

/// What a record of the network listing adds to the networks to look at:
/// nothing where it names one of the default networks.
pub open spec fn network_record(record: Seq<char>) -> Option<NetworkInfoView> {
    let name = found_or(json_text_at(record, "/Name"@), ""@);
    if is_default_network(name) {
        None
    } else {
        Some(
            NetworkInfoView {
                id: found_or(json_text_at(record, "/ID"@), ""@),
                name: name,
                driver: found_or(json_text_at(record, "/Driver"@), "bridge"@),
                created_timestamp: 0,
            },
        )
    }
}

pub open spec fn network_record_rule() -> spec_fn(Seq<char>) -> Option<NetworkInfoView> {
    |record: Seq<char>| network_record(record)
}

/// The networks of a listing that are not Docker's own, in the order of the
/// listing; whether each is in use is yet to be found out. An error where a
/// line of the output is no JSON.
pub fn networks_to_inspect(output: &str) -> (r: Result<Vec<NetworkInfo>, RemoteAnalysisError>)
    ensures
        match r {
            Ok(list) => first_bad(records_of(output@)) is None && list@.map_values(network_view())
                == records_of(output@).filter_map(network_record_rule()),
            Err(e) => e matches RemoteAnalysisError::NetworkJson { line } && first_bad(
                records_of(output@),
            ) == Some(line@),
        },
{
    let list = records(output);
    match find_bad_record(&list) {
        Some(bad) => {
            return Err(RemoteAnalysisError::NetworkJson { line: bad });
        },
        None => {},
    }
    let mut items: Vec<NetworkInfo> = Vec::new();
    let mut i: usize = 0;
    assert(texts(list@).subrange(0, 0) =~= Seq::<Seq<char>>::empty());
    assert(items@.map_values(network_view()) =~= Seq::<NetworkInfoView>::empty());
    while i < list.len()
        invariant
            i <= list.len(),
            items@.map_values(network_view()) == texts(list@).subrange(0, i as int).filter_map(
                network_record_rule(),
            ),
        decreases list.len() - i,
    {
        proof {
            lemma_filter_map_step(texts(list@), i as int, network_record_rule());
        }
        let record = list[i].as_str();
        let name = text_at_or(record, "/Name", "");
        let plain = to_chars(name.as_str());
        if !(is_text(&plain, "bridge") || is_text(&plain, "host") || is_text(&plain, "none")) {
            let item = NetworkInfo {
                id: text_at_or(record, "/ID", ""),
                name,
                driver: text_at_or(record, "/Driver", "bridge"),
                created_timestamp: 0,
            };
            let ghost before = items@.map_values(network_view());
            items.push(item);
            assert(items@.map_values(network_view()) =~= before.push(item@));
        }
        i += 1;
    }
    assert(texts(list@).subrange(0, list@.len() as int) =~= texts(list@));
    Ok(items)
}

/// The arguments that tell which containers are attached to a network.
pub fn network_inspect_args(name: &str) -> (r: Vec<String>)
    ensures
        texts(r@) == seq!["network"@, "inspect"@, name@, "--format"@, "{{json .Containers}}"@],
{
    let mut a: Vec<String> = Vec::new();
    a.push("network".to_string());
    a.push("inspect".to_string());
    a.push(name.to_string());
    a.push("--format".to_string());
    a.push("{{json .Containers}}".to_string());
    assert(texts(a@) =~= seq![
        "network"@,
        "inspect"@,
        name@,
        "--format"@,
        "{{json .Containers}}"@,
    ]);
    a
}

/// Whether a network is unused, by the output of its inspection: it is
/// where the containers are an empty object or `null`, and where the
/// inspection failed.
pub open spec fn network_unused_spec(inspection: Option<Seq<char>>) -> bool {
    match inspection {
        Some(out) => trimmed(out) == "{}"@ || trimmed(out) == "null"@,
        None => true,
    }
}

pub fn network_is_unused(inspection: Option<&str>) -> (r: bool)
    ensures
        r == network_unused_spec(
            match inspection {
                Some(o) => Some(o@),
                None => None,
            },
        ),
{
    match inspection {
        Some(out) => {
            let t = trim(&to_chars(out));
            is_text(&t, "{}") || is_text(&t, "null")
        },
        None => true,
    }
}

/// The networks that were found unused, in order.
pub open spec fn kept<T>(items: Seq<T>, keep: Seq<bool>, n: nat) -> Seq<T>
    recommends
        n <= items.len(),
        n <= keep.len(),
    decreases n,
{
    if n == 0 {
        Seq::<T>::empty()
    } else if keep[n - 1] {
        kept(items, keep, (n - 1) as nat).push(items[n - 1])
    } else {
        kept(items, keep, (n - 1) as nat)
    }
}

/// The statistics of the unused networks: of the networks looked at, those
/// that were found unused.
pub fn unused_network_stats(networks: Vec<NetworkInfo>, unused: &Vec<bool>) -> (r: NetworkStats)
    requires
        unused@.len() == networks@.len(),
    ensures
        r.items@ == kept(networks@, unused@, networks@.len()),
        r.count == r.items@.len(),
{
    let mut rest = networks;
    let ghost all = rest@;
    let mut items: Vec<NetworkInfo> = Vec::new();
    let mut i: usize = 0;
    let n = unused.len();
    while i < n
        invariant
            i <= n,
            n == unused@.len(),
            n == all.len(),
            rest@ =~= all.subrange(i as int, n as int),
            items@ == kept(all, unused@, i as nat),
        decreases n - i,
    {
        let item = rest.remove(0);
        assert(item == all[i as int]);
        if unused[i] {
            items.push(item);
        }
        i += 1;
    }
    NetworkStats { count: items.len(), items }
}

// ---------------------------------------------------------------------------
// Build cache
// ---------------------------------------------------------------------------

/// The arguments that list the networks, one JSON object a line.
pub fn network_list_args() -> (r: Vec<String>)
    ensures
        texts(r@) == seq!["network"@, "ls"@, "--format"@, "{{json .}}"@],
{
    let mut a: Vec<String> = Vec::new();
    a.push("network".to_string());
    a.push("ls".to_string());
    a.push("--format".to_string());
    a.push("{{json .}}".to_string());
    assert(texts(a@) =~= seq!["network"@, "ls"@, "--format"@, "{{json .}}"@]);
    a
}

/// The arguments that report disk usage in detail, as JSON.
pub fn system_df_args() -> (r: Vec<String>)
    ensures
        texts(r@) == seq!["system"@, "df"@, "-v"@, "--format"@, "{{json .}}"@],
{
    let mut a: Vec<String> = Vec::new();
    a.push("system".to_string());
    a.push("df".to_string());
    a.push("-v".to_string());
    a.push("--format".to_string());
    a.push("{{json .}}".to_string());
    assert(texts(a@) =~= seq!["system"@, "df"@, "-v"@, "--format"@, "{{json .}}"@]);
    a
}

/// The pointer to a field of an item of the build cache section.
pub open spec fn cache_pointer(index: nat, field: Seq<char>) -> Seq<char> {
    "/BuildCache/"@ + decimal(index) + "/"@ + field
}

fn cache_pointer_to(index: usize, field: &str) -> (r: String)
    ensures
        r@ == cache_pointer(index as nat, field@),
{
    let mut out = to_chars("/BuildCache/");
    push_count(&mut out, index);
    push_str(&mut out, "/");
    push_str(&mut out, field);
    from_chars(&out)
}

/// An item of the build cache section of a record.
pub open spec fn cache_record(record: Seq<char>, index: nat) -> BuildCacheView {
    BuildCacheView {
        id: found_or(json_text_at(record, cache_pointer(index, "ID"@)), ""@),
        cache_type: found_or(json_text_at(record, cache_pointer(index, "Type"@)), "unknown"@),
        size_bytes: docker_size(
            found_or(json_text_at(record, cache_pointer(index, "Size"@)), "0B"@),
        ),
        created_timestamp: 0,
        last_used_timestamp: None,
        in_use: json_flag_at(record, cache_pointer(index, "InUse"@)) == Some(true),
        shared: json_flag_at(record, cache_pointer(index, "Shared"@)) == Some(true),
    }
}

/// The first `n` items of the build cache section of a record.
pub open spec fn cache_records(record: Seq<char>, n: nat) -> Seq<BuildCacheView> {
    Seq::new(n, |i: int| cache_record(record, i as nat))
}

/// The build cache items of a record: none where the record is no JSON or
/// has no build cache section.
pub open spec fn cache_of(record: Seq<char>) -> Seq<BuildCacheView> {
    if json_is_valid(record) && json_length_at(record, "/BuildCache"@) is Some {
        cache_records(record, json_length_at(record, "/BuildCache"@)->0 as nat)
    } else {
        Seq::<BuildCacheView>::empty()
    }
}

/// The build cache items of all records, in order.
pub open spec fn all_cache(records: Seq<Seq<char>>) -> Seq<BuildCacheView>
    decreases records.len(),
{
    if records.len() == 0 {
        Seq::<BuildCacheView>::empty()
    } else {
        all_cache(records.drop_last()) + cache_of(records.last())
    }
}

/// The build cache in the output of the disk usage report: every item of
/// every build cache section, in order, with the total and with what is not
/// in use.
pub fn analyze_build_cache_remote(output: &str) -> (r: BuildCacheStats)
    ensures
        r.items@.map_values(cache_view()) == all_cache(records_of(output@)),
        r.total_size_bytes == capped(
            total(all_cache(records_of(output@)).map_values(cache_size())),
        ),
        r.reclaimable_bytes == capped(
            total(all_cache(records_of(output@)).map_values(idle_size())),
        ),
{
    let list = records(output);
    let mut items: Vec<BuildCacheItem> = Vec::new();
    let mut sum: u64 = 0;
    let mut idle: u64 = 0;
    let mut i: usize = 0;
    assert(texts(list@).subrange(0, 0) =~= Seq::<Seq<char>>::empty());
    assert(items@.map_values(cache_view()) =~= Seq::<BuildCacheView>::empty());
    assert(Seq::<BuildCacheView>::empty().map_values(cache_size()) =~= Seq::<u64>::empty());
    assert(Seq::<BuildCacheView>::empty().map_values(idle_size()) =~= Seq::<u64>::empty());
    while i < list.len()
        invariant
            i <= list.len(),
            items@.map_values(cache_view()) == all_cache(texts(list@).subrange(0, i as int)),
            sum == capped(total(items@.map_values(cache_view()).map_values(cache_size()))),
            idle == capped(total(items@.map_values(cache_view()).map_values(idle_size()))),
        decreases list.len() - i,
    {
        assert(texts(list@).subrange(0, i + 1).drop_last() =~= texts(list@).subrange(0, i as int));
        assert(texts(list@).subrange(0, i + 1).last() == list@[i as int]@);
        let record = list[i].as_str();
        let ghost start = items@.map_values(cache_view());
        let count: usize = if is_json(record) {
            match length_at(record, "/BuildCache") {
                Some(n) => n,
                None => 0,
            }
        } else {
            0
        };
        assert(cache_of(record@) =~= cache_records(record@, count as nat));
        let mut k: usize = 0;
        assert(start + cache_records(record@, 0) =~= start);
        while k < count
            invariant
                k <= count,
                items@.map_values(cache_view()) == start + cache_records(record@, k as nat),
                sum == capped(total(items@.map_values(cache_view()).map_values(cache_size()))),
                idle == capped(total(items@.map_values(cache_view()).map_values(idle_size()))),
            decreases count - k,
        {
            let size_text = text_at_or(record, cache_pointer_to(k, "Size").as_str(), "0B");
            let size = parse_docker_size(size_text.as_str());
            let in_use = flag_at_or_false(record, cache_pointer_to(k, "InUse").as_str());
            let item = BuildCacheItem {
                id: text_at_or(record, cache_pointer_to(k, "ID").as_str(), ""),
                cache_type: text_at_or(record, cache_pointer_to(k, "Type").as_str(), "unknown"),
                size_bytes: size,
                created_timestamp: 0,
                last_used_timestamp: None,
                in_use,
                shared: flag_at_or_false(record, cache_pointer_to(k, "Shared").as_str()),
            };
            assert(item@ == cache_record(record@, k as nat));
            let ghost before = items@.map_values(cache_view());
            let idle_part: u64 = if in_use {
                0
            } else {
                size
            };
            proof {
                lemma_total_push(before.map_values(cache_size()), size);
                lemma_total_push(before.map_values(idle_size()), idle_part);
            }
            sum = sum.saturating_add(size);
            idle = idle.saturating_add(idle_part);
            items.push(item);
            assert(items@.map_values(cache_view()) =~= before.push(item@));
            assert(before.push(item@).map_values(cache_size()) =~= before.map_values(
                cache_size(),
            ).push(size));
            assert(before.push(item@).map_values(idle_size()) =~= before.map_values(
                idle_size(),
            ).push(idle_part));
            assert(start + cache_records(record@, (k + 1) as nat) =~= (start + cache_records(
                record@,
                k as nat,
            )).push(item@));
            k += 1;
        }
        i += 1;
    }
    assert(texts(list@).subrange(0, list@.len() as int) =~= texts(list@));
    BuildCacheStats { total_size_bytes: sum, reclaimable_bytes: idle, items }
}

// ---------------------------------------------------------------------------
// Stopped containers
// ---------------------------------------------------------------------------

/// The arguments that list all containers, one JSON object per line.
pub fn all_containers_args() -> (r: Vec<String>)
    ensures
        texts(r@) == seq!["ps"@, "-a"@, "--format"@, "{{json .}}"@],
{
    let mut a: Vec<String> = Vec::new();
    a.push("ps".to_string());
    a.push("-a".to_string());
    a.push("--format".to_string());
    a.push("{{json .}}".to_string());
    assert(texts(a@) =~= seq!["ps"@, "-a"@, "--format"@, "{{json .}}"@]);
    a
}

/// What a record of the container listing adds to the stopped containers:
/// nothing while the container runs or is younger than the threshold.
pub open spec fn container_record(record: Seq<char>, threshold_days: i64, now: i64) -> Option<
    ContainerInfoView,
> {
    let state = found_or(json_text_at(record, "/State"@), ""@);
    let created = docker_timestamp(found_or(json_text_at(record, "/CreatedAt"@), ""@));
    let id = found_or(json_text_at(record, "/ID"@), ""@);
    if state == "running"@ || age_days(now, created) < threshold_days {
        None
    } else {
        Some(
            ContainerInfoView {
                id: id,
                name: found_or(json_text_at(record, "/Names"@), short_id(id)),
                image: found_or(json_text_at(record, "/Image"@), "unknown"@),
                size_bytes: docker_size(found_or(json_text_at(record, "/Size"@), "0B"@)),
                created_timestamp: created,
                stopped_timestamp: None,
                exit_code: None,
                status: found_or(json_text_at(record, "/Status"@), state),
            },
        )
    }
}

pub open spec fn container_record_rule(threshold_days: i64, now: i64) -> spec_fn(
    Seq<char>,
) -> Option<ContainerInfoView> {
    |record: Seq<char>| container_record(record, threshold_days, now)
}

fn container_item(record: &str, threshold_days: i64, now: i64) -> (r: Option<ContainerInfo>)
    ensures
        match r {
            Some(item) => container_record(record@, threshold_days, now) == Some(item@),
            None => container_record(record@, threshold_days, now) is None,
        },
{
    let state = text_at_or(record, "/State", "");
    if str_same(state.as_str(), "running") {
        return None;
    }
    let created_text = text_at_or(record, "/CreatedAt", "");
    let created = parse_docker_timestamp(created_text.as_str());
    if age_in_days(now, created) < threshold_days as i128 {
        return None;
    }
    let id = text_at_or(record, "/ID", "");
    let short = from_chars(&short_id_of(&to_chars(id.as_str())));
    let size_text = text_at_or(record, "/Size", "0B");
    Some(
        ContainerInfo {
            name: text_at_or(record, "/Names", short.as_str()),
            image: text_at_or(record, "/Image", "unknown"),
            size_bytes: parse_docker_size(size_text.as_str()),
            created_timestamp: created,
            stopped_timestamp: None,
            exit_code: None,
            status: text_at_or(record, "/Status", state.as_str()),
            id,
        },
    )
}

/// The stopped containers in the output of the listing: those that do not
/// run and are at least `threshold_days` old at `now`, largest first; an
/// error where a line of the output is no JSON.
pub fn analyze_stopped_containers_remote(output: &str, threshold_days: i64, now: i64) -> (r:
    Result<ContainerStats, RemoteAnalysisError>)
    ensures
        match r {
            Ok(stats) => first_bad(records_of(output@)) is None && stats.items@.map_values(
                container_view(),
            ) == sorted_by(
                records_of(output@).filter_map(container_record_rule(threshold_days, now)),
                larger_container(),
            ) && stats.count == stats.items@.len() && stats.total_size_bytes == capped(
                total(
                    records_of(output@).filter_map(
                        container_record_rule(threshold_days, now),
                    ).map_values(container_size()),
                ),
            ),
            Err(e) => e matches RemoteAnalysisError::ContainerJson { line } && first_bad(
                records_of(output@),
            ) == Some(line@),
        },
{
    let list = records(output);
    match find_bad_record(&list) {
        Some(bad) => {
            return Err(RemoteAnalysisError::ContainerJson { line: bad });
        },
        None => {},
    }
    let ghost rule = container_record_rule(threshold_days, now);
    let mut items: Vec<ContainerInfo> = Vec::new();
    let mut sum: u64 = 0;
    let mut i: usize = 0;
    assert(texts(list@).subrange(0, 0) =~= Seq::<Seq<char>>::empty());
    assert(items@.map_values(container_view()) =~= Seq::<ContainerInfoView>::empty());
    assert(Seq::<ContainerInfoView>::empty().map_values(container_size()) =~= Seq::<u64>::empty());
    while i < list.len()
        invariant
            i <= list.len(),
            rule == container_record_rule(threshold_days, now),
            items@.map_values(container_view()) == texts(list@).subrange(0, i as int).filter_map(
                rule,
            ),
            sum == capped(total(items@.map_values(container_view()).map_values(container_size()))),
        decreases list.len() - i,
    {
        proof {
            lemma_filter_map_step(texts(list@), i as int, rule);
        }
        match container_item(list[i].as_str(), threshold_days, now) {
            Some(item) => {
                let ghost before = items@.map_values(container_view());
                proof {
                    lemma_total_push(before.map_values(container_size()), item.size_bytes);
                }
                sum = sum.saturating_add(item.size_bytes);
                items.push(item);
                assert(items@.map_values(container_view()) =~= before.push(item@));
                assert(before.push(item@).map_values(container_size()) =~= before.map_values(
                    container_size(),
                ).push(item.size_bytes));
            },
            None => {},
        }
        i += 1;
    }
    assert(texts(list@).subrange(0, list@.len() as int) =~= texts(list@));
    let ghost collected = items@;
    let sorted_items = sort(items);
    proof {
        assert forall|a: ContainerInfo, b: ContainerInfo| #[trigger]
            order::<ContainerInfo>()(a, b) == larger_container()(
                container_view()(a),
                container_view()(b),
            ) by {}
        lemma_sorted_maps(
            collected,
            container_view(),
            order::<ContainerInfo>(),
            larger_container(),
        );
    }
    Ok(ContainerStats { count: sorted_items.len(), total_size_bytes: sum, items: sorted_items })
}

// ---------------------------------------------------------------------------
// Pruning
// ---------------------------------------------------------------------------

/// The filter that limits a prune to what is older than a number of days,
/// given in hours.
pub open spec fn until_filter_spec(days: i64) -> Seq<char> {
    "until="@ + signed_decimal(days * 24) + "h"@
}

pub fn until_filter(days: i64) -> (r: String)
    ensures
        r@ == until_filter_spec(days),
{
    let hours: i128 = days as i128 * 24;
    let mut out = to_chars("until=");
    let mut number: Vec<char> = Vec::new();
    if hours < 0 {
        number.push('-');
        push_wide_decimal(&mut number, (-hours) as u128);
        assert(number@ =~= signed_decimal(days * 24));
    } else {
        push_wide_decimal(&mut number, hours as u128);
        assert(number@ =~= signed_decimal(days * 24));
    }
    crate::text::push_all(&mut out, &number);
    push_str(&mut out, "h");
    from_chars(&out)
}

/// The state of a scan of prune output: the size last reported as
/// reclaimed, and the number of lines that tell of a deletion.
pub open spec fn prune_scan(lines: Seq<Seq<char>>) -> (u64, nat)
    decreases lines.len(),
{
    if lines.len() == 0 {
        (0, 0)
    } else {
        let (space, count) = prune_scan(lines.drop_last());
        let t = trimmed(lines.last());
        if starts_with(t, "Total reclaimed space:"@) {
            (docker_size(trimmed(t.subrange("Total reclaimed space:"@.len() as int, t.len() as int))), count)
        } else if starts_with(t, "Deleted "@) {
            (space, count + 1)
        } else {
            (space, count)
        }
    }
}

/// Whether a line names something deleted: it starts with `sha256:` or
/// `deleted:`, or is a short id of twelve hexadecimal digits.
pub open spec fn looks_like_id(line: Seq<char>) -> bool {
    let t = trimmed(line);
    starts_with(t, "sha256:"@) || starts_with(t, "deleted:"@) || (t.len() == 12 && forall|i: int|
        0 <= i < t.len() ==> is_hex_digit(#[trigger] t[i]))
}

pub open spec fn count_ids(lines: Seq<Seq<char>>) -> nat
    decreases lines.len(),
{
    if lines.len() == 0 {
        0
    } else {
        count_ids(lines.drop_last()) + if looks_like_id(lines.last()) {
            1nat
        } else {
            0nat
        }
    }
}

/// What a prune did, by its output: the space that the line `Total
/// reclaimed space:` gives, and the number of lines that start with
/// `Deleted `; where space was reclaimed and no such line is there, the
/// number of lines that name something deleted.
pub open spec fn prune_stats_spec(output: Seq<char>) -> (u64, nat) {
    let (space, count) = prune_scan(lines_of(output));
    if space > 0 && count == 0 {
        (space, count_ids(lines_of(output)))
    } else {
        (space, count)
    }
}

fn line_looks_like_id(line: &Vec<char>) -> (r: bool)
    ensures
        r == looks_like_id(line@),
{
    let t = trim(line);
    if begins_with(&t, "sha256:") || begins_with(&t, "deleted:") {
        return true;
    }
    if t.len() != 12 {
        return false;
    }
    let mut i: usize = 0;
    while i < t.len()
        invariant
            i <= t.len(),
            t@ == trimmed(line@),
            t@.len() == 12,
            !starts_with(t@, "sha256:"@),
            !starts_with(t@, "deleted:"@),
            forall|k: int| 0 <= k < i ==> is_hex_digit(#[trigger] t@[k]),
        decreases t.len() - i,
    {
        if !char_is_hex_digit(t[i]) {
            assert(!is_hex_digit(t@[i as int]));
            return false;
        }
        i += 1;
    }
    true
}

/// Parse Docker prune command output to extract statistics.
pub fn parse_prune_output(output: &str) -> (r: PruneStats)
    ensures
        r.space_reclaimed == prune_stats_spec(output@).0,
        r.count == prune_stats_spec(output@).1,
{
    let raw = to_chars(output);
    let all = lines(&raw);
    let mut space: u64 = 0;
    let mut count: usize = 0;
    let mut i: usize = 0;
    assert(rows(all@).subrange(0, 0) =~= Seq::<Seq<char>>::empty());
    let marker = to_chars("Total reclaimed space:");
    while i < all.len()
        invariant
            i <= all.len(),
            count <= i,
            marker@ == "Total reclaimed space:"@,
            (space, count as nat) == prune_scan(rows(all@).subrange(0, i as int)),
        decreases all.len() - i,
    {
        assert(rows(all@).subrange(0, i + 1).drop_last() =~= rows(all@).subrange(0, i as int));
        assert(rows(all@).subrange(0, i + 1).last() == all@[i as int]@);
        let t = trim(&all[i]);
        if crate::text::matches_at(&t, &marker, 0) {
            let rest = trim(&slice(&t, marker.len(), t.len()));
            let text = from_chars(&rest);
            space = parse_docker_size(text.as_str());
        } else if begins_with(&t, "Deleted ") {
            count += 1;
        }
        i += 1;
    }
    assert(rows(all@).subrange(0, all@.len() as int) =~= rows(all@));
    if space > 0 && count == 0 {
        let mut ids: usize = 0;
        let mut k: usize = 0;
        while k < all.len()
            invariant
                k <= all.len(),
                ids <= k,
                ids == count_ids(rows(all@).subrange(0, k as int)),
            decreases all.len() - k,
        {
            assert(rows(all@).subrange(0, k + 1).drop_last() =~= rows(all@).subrange(0, k as int));
            assert(rows(all@).subrange(0, k + 1).last() == all@[k as int]@);
            if line_looks_like_id(&all[k]) {
                ids += 1;
            }
            k += 1;
        }
        count = ids;
    }
    PruneStats { count, space_reclaimed: space }
}

/// The networks that a prune removed, by its output: the lines after the
/// header that are not blank.
pub open spec fn count_named(lines: Seq<Seq<char>>, n: nat) -> nat
    recommends
        n <= lines.len(),
    decreases n,
{
    if n <= 1 {
        0
    } else {
        count_named(lines, (n - 1) as nat) + if trimmed(lines[n - 1]).len() > 0 {
            1nat
        } else {
            0nat
        }
    }
}

pub fn count_pruned_networks(output: &str) -> (r: usize)
    ensures
        r == count_named(lines_of(output@), lines_of(output@).len()),
{
    let raw = to_chars(output);
    let all = lines(&raw);
    assert(rows(all@).len() == all@.len());
    let mut count: usize = 0;
    let mut i: usize = 0;
    while i < all.len()
        invariant
            i <= all.len(),
            count <= i,
            count == count_named(rows(all@), i as nat),
        decreases all.len() - i,
    {
        if i >= 1 {
            assert(rows(all@)[i as int] == all@[i as int]@);
            if trim(&all[i]).len() > 0 {
                count += 1;
            }
        }
        i += 1;
    }
    count
}

/// The space that the output of a prune gives as reclaimed: the size at the
/// end of the first line that holds `Total reclaimed space:` or
/// `reclaimed:`; 0 where there is no such line.
pub open spec fn reclaimed_space(lines: Seq<Seq<char>>) -> u64
    decreases lines.len(),
{
    if lines.len() == 0 {
        0
    } else {
        let line = lines[0];
        if has_substring(line, "Total reclaimed space:"@) || has_substring(line, "reclaimed:"@) {
            if words_of(line).len() > 0 {
                docker_size(words_of(line).last())
            } else {
                reclaimed_space(lines.drop_first())
            }
        } else {
            reclaimed_space(lines.drop_first())
        }
    }
}

/// Parse Docker's "Total reclaimed space: X.XXkB/MB/GB" output.
pub fn parse_reclaimed_space(output: &str) -> (r: u64)
    ensures
        r == reclaimed_space(lines_of(output@)),
{
    let raw = to_chars(output);
    let all = lines(&raw);
    let n = all.len();
    let mut i: usize = 0;
    assert(rows(all@).subrange(0, n as int) =~= rows(all@));
    while i < n
        invariant
            i <= n,
            n == all@.len(),
            rows(all@) == lines_of(output@),
            reclaimed_space(rows(all@)) == reclaimed_space(rows(all@).subrange(i as int, n as int)),
        decreases n - i,
    {
        let ghost rest = rows(all@).subrange(i as int, n as int);
        assert(rest[0] == all@[i as int]@);
        assert(rest.drop_first() =~= rows(all@).subrange(i + 1, n as int));
        let line = &all[i];
        if contains_str(line, "Total reclaimed space:") || contains_str(line, "reclaimed:") {
            let w = words(line);
            assert(rows(w@).len() == w@.len());
            if w.len() > 0 {
                assert(rows(w@).last() == w@[w@.len() - 1]@);
                let text = from_chars(&w[w.len() - 1]);
                return parse_docker_size(text.as_str());
            }
        }
        i += 1;
    }
    0
}

} // verus!

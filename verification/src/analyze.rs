//! The analyzers of the cleanup engine, on what the Docker API reports.
//!
//! Talking to Docker is the caller's part. Each analyzer takes the records
//! that a listing gave, as plain values, and says what could be cleaned up.

use crate::cleanup::{
    clamp_size,
    clamped,
    BuildCacheItem,
    BuildCacheStats,
    ContainerInfo,
    ContainerStats,
    ImageInfo,
    ImageStats,
    NetworkInfo,
    NetworkStats,
};
use crate::numbers::{capped, parse_i64, signed_value};
use crate::health::container_name_spec;
use crate::sorting::{
    in_order, is_total, is_transitive, lemma_sorted_is_in_order, lemma_sorted_maps, order, sort,
    sorted_by, Listed,
};
use crate::text::{
    contains_str, from_chars, has_substring, is_text, opt_str, slice, str_same, to_chars,
};
use crate::timestamps::{api_timestamp, parse_api_timestamp, rfc3339_seconds};
use crate::tokens::{lemma_filter_map_step, rows, split, split_on, texts};
use vstd::prelude::*;

verus! {

/// The seconds of a day.
pub const DAY_SECONDS: i64 = 86400;

/// The age threshold of stopped containers where none is configured.
pub const DEFAULT_STOPPED_AGE_DAYS: i64 = 30;

/// The age threshold of unused images where none is configured.
pub const DEFAULT_IMAGE_AGE_DAYS: i64 = 90;

/// The age threshold that a setting gives: the signed numeral it holds, or
/// the default where there is no setting, it is no numeral, or its number
/// does not fit in 64 bits.
pub open spec fn age_threshold_spec(setting: Option<Seq<char>>, default: i64) -> i64 {
    match setting {
        Some(s) => match signed_value(s) {
            Some(n) => if i64::MIN <= n <= i64::MAX {
                n as i64
            } else {
                default
            },
            None => default,
        },
        None => default,
    }
}

/// Reads an age threshold in days from its setting.
pub fn age_threshold(setting: Option<&str>, default: i64) -> (r: i64)
    ensures
        r == age_threshold_spec(opt_str(setting), default),
{
    match setting {
        Some(s) => match parse_i64(&to_chars(s)) {
            Some(days) => days,
            None => default,
        },
        None => default,
    }
}

// ---------------------------------------------------------------------------
// Small helpers
// ---------------------------------------------------------------------------

pub open spec fn opt_view(s: Option<String>) -> Option<Seq<char>> {
    match s {
        Some(t) => Some(t@),
        None => None,
    }
}

pub open spec fn or_text(s: Option<String>, default: Seq<char>) -> Seq<char> {
    match s {
        Some(t) => t@,
        None => default,
    }
}

pub fn text_or(s: &Option<String>, default: &str) -> (r: String)
    ensures
        r@ == or_text(*s, default@),
{
    match s {
        Some(t) => t.clone(),
        None => default.to_string(),
    }
}

pub open spec fn opt_texts(names: Option<Vec<String>>) -> Option<Seq<Seq<char>>> {
    match names {
        Some(n) => Some(texts(n@)),
        None => None,
    }
}

/// Whole days between two instants, rounded toward zero.
pub open spec fn age_days(now: i64, created: i64) -> int {
    let d = now - created;
    if d >= 0 {
        d / 86400
    } else {
        -((-d) / 86400)
    }
}

pub fn age_in_days(now: i64, created: i64) -> (r: i128)
    ensures
        r == age_days(now, created),
{
    let d: i128 = now as i128 - created as i128;
    if d >= 0 {
        d / 86400
    } else {
        -((-d) / 86400)
    }
}

/// The sum of a list of sizes.
pub open spec fn total(sizes: Seq<u64>) -> nat
    decreases sizes.len(),
{
    if sizes.len() == 0 {
        0
    } else {
        total(sizes.drop_last()) + sizes.last() as nat
    }
}

pub proof fn lemma_total_push(sizes: Seq<u64>, x: u64)
    ensures
        total(sizes.push(x)) == total(sizes) + x,
{
    assert(sizes.push(x).drop_last() =~= sizes);
}

// ---------------------------------------------------------------------------
// Records of the Docker API
// ---------------------------------------------------------------------------

/// A container as a listing reports it.
#[derive(Debug, Clone)]
pub struct ContainerRecord {
    pub id: Option<String>,
    pub names: Option<Vec<String>>,
    pub image: Option<String>,
    pub image_id: Option<String>,
    pub state: Option<String>,
    pub status: Option<String>,
    pub created: Option<i64>,
    pub size_rw: Option<i64>,
    /// The names of the volumes that the container mounts.
    pub volume_names: Vec<String>,
}

/// An image as a listing reports it.
#[derive(Debug, Clone)]
pub struct ImageRecord {
    pub id: String,
    pub repo_tags: Vec<String>,
    pub size: i64,
    pub created: i64,
}

/// A network as a listing reports it.
#[derive(Debug, Clone)]
pub struct NetworkRecord {
    pub id: Option<String>,
    pub name: Option<String>,
    pub driver: Option<String>,
    pub created: Option<String>,
    /// How many containers are attached to the network.
    pub attached: usize,
}

/// A build cache item as the disk usage report gives it.
#[derive(Debug, Clone)]
pub struct BuildCacheRecord {
    pub id: Option<String>,
    pub cache_type: Option<String>,
    pub size: Option<i64>,
    pub created_at: Option<String>,
    pub last_used_at: Option<String>,
    pub in_use: Option<bool>,
    pub shared: Option<bool>,
}

// ---------------------------------------------------------------------------
// Views of what the analyzers give
// ---------------------------------------------------------------------------

pub struct ContainerInfoView {
    pub id: Seq<char>,
    pub name: Seq<char>,
    pub image: Seq<char>,
    pub size_bytes: u64,
    pub created_timestamp: i64,
    pub stopped_timestamp: Option<i64>,
    pub exit_code: Option<i64>,
    pub status: Seq<char>,
}

impl View for ContainerInfo {
    type V = ContainerInfoView;

    open spec fn view(&self) -> ContainerInfoView {
        ContainerInfoView {
            id: self.id@,
            name: self.name@,
            image: self.image@,
            size_bytes: self.size_bytes,
            created_timestamp: self.created_timestamp,
            stopped_timestamp: self.stopped_timestamp,
            exit_code: self.exit_code,
            status: self.status@,
        }
    }
}

pub struct ImageInfoView {
    pub repository: Seq<char>,
    pub tag: Seq<char>,
    pub image_id: Seq<char>,
    pub size_bytes: u64,
    pub created_timestamp: i64,
}

impl View for ImageInfo {
    type V = ImageInfoView;

    open spec fn view(&self) -> ImageInfoView {
        ImageInfoView {
            repository: self.repository@,
            tag: self.tag@,
            image_id: self.image_id@,
            size_bytes: self.size_bytes,
            created_timestamp: self.created_timestamp,
        }
    }
}

pub struct NetworkInfoView {
    pub id: Seq<char>,
    pub name: Seq<char>,
    pub driver: Seq<char>,
    pub created_timestamp: i64,
}

impl View for NetworkInfo {
    type V = NetworkInfoView;

    open spec fn view(&self) -> NetworkInfoView {
        NetworkInfoView {
            id: self.id@,
            name: self.name@,
            driver: self.driver@,
            created_timestamp: self.created_timestamp,
        }
    }
}

pub struct BuildCacheView {
    pub id: Seq<char>,
    pub cache_type: Seq<char>,
    pub size_bytes: u64,
    pub created_timestamp: i64,
    pub last_used_timestamp: Option<i64>,
    pub in_use: bool,
    pub shared: bool,
}

impl View for BuildCacheItem {
    type V = BuildCacheView;

    open spec fn view(&self) -> BuildCacheView {
        BuildCacheView {
            id: self.id@,
            cache_type: self.cache_type@,
            size_bytes: self.size_bytes,
            created_timestamp: self.created_timestamp,
            last_used_timestamp: self.last_used_timestamp,
            in_use: self.in_use,
            shared: self.shared,
        }
    }
}

pub open spec fn container_view() -> spec_fn(ContainerInfo) -> ContainerInfoView {
    |c: ContainerInfo| c@
}

pub open spec fn image_view() -> spec_fn(ImageInfo) -> ImageInfoView {
    |c: ImageInfo| c@
}

pub open spec fn network_view() -> spec_fn(NetworkInfo) -> NetworkInfoView {
    |c: NetworkInfo| c@
}

pub open spec fn cache_view() -> spec_fn(BuildCacheItem) -> BuildCacheView {
    |c: BuildCacheItem| c@
}

/// Largest first.
pub open spec fn larger_container() -> spec_fn(ContainerInfoView, ContainerInfoView) -> bool {
    |a: ContainerInfoView, b: ContainerInfoView| a.size_bytes >= b.size_bytes
}

pub open spec fn larger_image() -> spec_fn(ImageInfoView, ImageInfoView) -> bool {
    |a: ImageInfoView, b: ImageInfoView| a.size_bytes >= b.size_bytes
}

pub open spec fn larger_cache() -> spec_fn(BuildCacheView, BuildCacheView) -> bool {
    |a: BuildCacheView, b: BuildCacheView| a.size_bytes >= b.size_bytes
}

pub open spec fn container_size() -> spec_fn(ContainerInfoView) -> u64 {
    |c: ContainerInfoView| c.size_bytes
}

pub open spec fn image_size() -> spec_fn(ImageInfoView) -> u64 {
    |c: ImageInfoView| c.size_bytes
}

pub open spec fn cache_size() -> spec_fn(BuildCacheView) -> u64 {
    |c: BuildCacheView| c.size_bytes
}

impl Listed for ContainerInfo {
    open spec fn precedes(a: Self, b: Self) -> bool {
        a.size_bytes >= b.size_bytes
    }

    fn may_precede(&self, other: &Self) -> (r: bool) {
        self.size_bytes >= other.size_bytes
    }
}

impl Listed for ImageInfo {
    open spec fn precedes(a: Self, b: Self) -> bool {
        a.size_bytes >= b.size_bytes
    }

    fn may_precede(&self, other: &Self) -> (r: bool) {
        self.size_bytes >= other.size_bytes
    }
}

impl Listed for BuildCacheItem {
    open spec fn precedes(a: Self, b: Self) -> bool {
        a.size_bytes >= b.size_bytes
    }

    fn may_precede(&self, other: &Self) -> (r: bool) {
        self.size_bytes >= other.size_bytes
    }
}

// ---------------------------------------------------------------------------
// Stopped containers
// ---------------------------------------------------------------------------

/// What a container adds to the stopped containers: nothing while it runs
/// or is younger than the threshold, else its record.
pub open spec fn stopped_entry(c: ContainerRecord, threshold_days: i64, now: i64) -> Option<
    ContainerInfoView,
> {
    let state = or_text(c.state, ""@);
    let created = match c.created {
        Some(t) => t,
        None => 0,
    };
    if state == "running"@ || age_days(now, created) < threshold_days {
        None
    } else {
        Some(
            ContainerInfoView {
                id: or_text(c.id, ""@),
                name: container_name_spec(opt_texts(c.names), or_text(c.id, ""@)),
                image: or_text(c.image, "unknown"@),
                size_bytes: clamped(
                    match c.size_rw {
                        Some(s) => s,
                        None => 0,
                    },
                ),
                created_timestamp: created,
                stopped_timestamp: None,
                exit_code: None,
                status: or_text(c.status, state),
            },
        )
    }
}

pub open spec fn stopped_rule(threshold_days: i64, now: i64) -> spec_fn(ContainerRecord) -> Option<
    ContainerInfoView,
> {
    |c: ContainerRecord| stopped_entry(c, threshold_days, now)
}

fn stopped_item(c: &ContainerRecord, threshold_days: i64, now: i64) -> (r: Option<ContainerInfo>)
    ensures
        match r {
            Some(item) => stopped_entry(*c, threshold_days, now) == Some(item@),
            None => stopped_entry(*c, threshold_days, now) is None,
        },
{
    let state = text_or(&c.state, "");
    if str_same(state.as_str(), "running") {
        return None;
    }
    let created = match c.created {
        Some(t) => t,
        None => 0,
    };
    if age_in_days(now, created) < threshold_days as i128 {
        return None;
    }
    let id = text_or(&c.id, "");
    let name = crate::health::container_name(&c.names, id.as_str());
    let size = clamp_size(
        match c.size_rw {
            Some(s) => s,
            None => 0,
        },
    );
    Some(
        ContainerInfo {
            id,
            name,
            image: text_or(&c.image, "unknown"),
            size_bytes: size,
            created_timestamp: created,
            stopped_timestamp: None,
            exit_code: None,
            status: text_or(&c.status, state.as_str()),
        },
    )
}

/// Analyze stopped containers: those that do not run and are at least
/// `threshold_days` old at `now`, largest first.
pub fn analyze_stopped_containers(
    containers: &Vec<ContainerRecord>,
    threshold_days: i64,
    now: i64,
) -> (r: ContainerStats)
    ensures
        r.items@.map_values(container_view()) == sorted_by(
            containers@.filter_map(stopped_rule(threshold_days, now)),
            larger_container(),
        ),
        in_order(r.items@.map_values(container_view()), larger_container()),
        r.count == r.items@.len(),
        r.total_size_bytes == capped(
            total(
                containers@.filter_map(stopped_rule(threshold_days, now)).map_values(
                    container_size(),
                ),
            ),
        ),
{
    let mut items: Vec<ContainerInfo> = Vec::new();
    let mut sum: u64 = 0;
    let mut i: usize = 0;
    let ghost rule = stopped_rule(threshold_days, now);
    assert(containers@.subrange(0, 0) =~= Seq::<ContainerRecord>::empty());
    assert(items@.map_values(container_view()) =~= Seq::<ContainerInfoView>::empty());
    assert(Seq::<ContainerInfoView>::empty().map_values(container_size()) =~= Seq::<u64>::empty());
    while i < containers.len()
        invariant
            i <= containers.len(),
            rule == stopped_rule(threshold_days, now),
            items@.map_values(container_view()) == containers@.subrange(0, i as int).filter_map(
                rule,
            ),
            sum == capped(total(items@.map_values(container_view()).map_values(container_size()))),
        decreases containers.len() - i,
    {
        proof {
            lemma_filter_map_step(containers@, i as int, rule);
        }
        match stopped_item(&containers[i], threshold_days, now) {
            Some(item) => {
                let ghost before = items@.map_values(container_view());
                proof {
                    lemma_total_push(before.map_values(container_size()), item.size_bytes);
                }
                sum = sum.saturating_add(item.size_bytes);
                items.push(item);
                assert(items@.map_values(container_view()) =~= before.push(item@));
                assert(before.push(item@).map_values(container_size()) =~= before.map_values(
                    container_size(),
                ).push(item.size_bytes));
            },
            None => {},
        }
        i += 1;
    }
    assert(containers@.subrange(0, containers@.len() as int) =~= containers@);
    let ghost collected = items@;
    let sorted_items = sort(items);
    proof {
        assert forall|a: ContainerInfo, b: ContainerInfo| #[trigger]
            order::<ContainerInfo>()(a, b) == larger_container()(
                container_view()(a),
                container_view()(b),
            ) by {}
        lemma_sorted_maps(
            collected,
            container_view(),
            order::<ContainerInfo>(),
            larger_container(),
        );
        assert(is_total(larger_container())) by {
            assert forall|a: ContainerInfoView, b: ContainerInfoView| #[trigger]
                larger_container()(a, b) || larger_container()(b, a) by {}
        }
        assert(is_transitive(larger_container())) by {
            assert forall|a: ContainerInfoView, b: ContainerInfoView, c: ContainerInfoView|
                #[trigger] larger_container()(a, b) && #[trigger] larger_container()(
                    b,
                    c,
                ) implies larger_container()(a, c) by {}
        }
        lemma_sorted_is_in_order(collected.map_values(container_view()), larger_container());
    }
    ContainerStats { count: sorted_items.len(), total_size_bytes: sum, items: sorted_items }
}

// ---------------------------------------------------------------------------
// Dangling images
// ---------------------------------------------------------------------------

/// A dangling image as a report holds it.
pub open spec fn dangling_entry(img: ImageRecord) -> ImageInfoView {
    ImageInfoView {
        repository: "<none>"@,
        tag: "<none>"@,
        image_id: img.id@,
        size_bytes: clamped(img.size),
        created_timestamp: img.created,
    }
}

pub open spec fn dangling_rule() -> spec_fn(ImageRecord) -> ImageInfoView {
    |img: ImageRecord| dangling_entry(img)
}

/// Analyze dangling images: every image of a listing that was filtered for
/// dangling images, in the order of the listing.
pub fn analyze_dangling_images(images: &Vec<ImageRecord>) -> (r: ImageStats)
    ensures
        r.items@.map_values(image_view()) == images@.map_values(dangling_rule()),
        r.count == images@.len(),
        r.total_size_bytes == capped(
            total(images@.map_values(dangling_rule()).map_values(image_size())),
        ),
{
    let mut items: Vec<ImageInfo> = Vec::new();
    let mut sum: u64 = 0;
    let mut i: usize = 0;
    assert(Seq::<ImageInfoView>::empty().map_values(image_size()) =~= Seq::<u64>::empty());
    while i < images.len()
        invariant
            i <= images.len(),
            items@.map_values(image_view()) =~= images@.map_values(dangling_rule()).subrange(
                0,
                i as int,
            ),
            sum == capped(total(items@.map_values(image_view()).map_values(image_size()))),
        decreases images.len() - i,
    {
        let img = &images[i];
        let item = ImageInfo {
            repository: "<none>".to_string(),
            tag: "<none>".to_string(),
            image_id: img.id.clone(),
            size_bytes: clamp_size(img.size),
            created_timestamp: img.created,
        };
        let ghost before = items@.map_values(image_view());
        proof {
            lemma_total_push(before.map_values(image_size()), item.size_bytes);
        }
        sum = sum.saturating_add(item.size_bytes);
        items.push(item);
        assert(items@.map_values(image_view()) =~= before.push(item@));
        assert(before.push(item@).map_values(image_size()) =~= before.map_values(
            image_size(),
        ).push(item.size_bytes));
        i += 1;
    }
    assert(images@.map_values(dangling_rule()).subrange(0, images@.len() as int)
        =~= images@.map_values(dangling_rule()));
    ImageStats { count: images.len(), total_size_bytes: sum, items }
}

// ---------------------------------------------------------------------------
// Unused images
// ---------------------------------------------------------------------------

/// What a container refers to: its image and its image id, where it has
/// them.
pub open spec fn references_of(c: ContainerRecord) -> Seq<Seq<char>> {
    (match c.image {
        Some(i) => seq![i@],
        None => Seq::<Seq<char>>::empty(),
    }) + (match c.image_id {
        Some(i) => seq![i@],
        None => Seq::<Seq<char>>::empty(),
    })
}

/// The image ids and tags that containers, in any state, refer to.
pub open spec fn images_in_use(containers: Seq<ContainerRecord>) -> Seq<Seq<char>>
    decreases containers.len(),
{
    if containers.len() == 0 {
        Seq::<Seq<char>>::empty()
    } else {
        images_in_use(containers.drop_last()) + references_of(containers.last())
    }
}

/// Whether some tag holds `<none>`.
pub open spec fn has_untagged(tags: Seq<Seq<char>>) -> bool {
    exists|i: int| 0 <= i < tags.len() && has_substring(#[trigger] tags[i], "<none>"@)
}

/// Whether the set holds some tag.
pub open spec fn some_tag_in(tags: Seq<Seq<char>>, in_use: Seq<Seq<char>>) -> bool {
    exists|i: int| 0 <= i < tags.len() && in_use.contains(#[trigger] tags[i])
}

/// The repository and the tag of a name: what stands before and after its
/// first colon, or the name and `latest` where it has none.
pub open spec fn repo_and_tag(name: Seq<char>) -> (Seq<char>, Seq<char>) {
    let head = split_on(name, ':')[0];
    if head.len() == name.len() {
        (name, "latest"@)
    } else {
        (head, name.subrange(head.len() as int + 1, name.len() as int))
    }
}

/// What an image adds to the unused images: nothing where it is dangling,
/// in use by a container, or younger than the threshold.
pub open spec fn unused_entry(
    img: ImageRecord,
    in_use: Seq<Seq<char>>,
    threshold_days: i64,
    now: i64,
) -> Option<ImageInfoView> {
    let tags = texts(img.repo_tags@);
    if tags.len() == 0 || has_untagged(tags) {
        None
    } else if in_use.contains(img.id@) || some_tag_in(tags, in_use) {
        None
    } else if age_days(now, img.created) < threshold_days {
        None
    } else {
        Some(
            ImageInfoView {
                repository: repo_and_tag(tags[0]).0,
                tag: repo_and_tag(tags[0]).1,
                image_id: img.id@,
                size_bytes: clamped(img.size),
                created_timestamp: img.created,
            },
        )
    }
}

pub open spec fn unused_rule(in_use: Seq<Seq<char>>, threshold_days: i64, now: i64) -> spec_fn(
    ImageRecord,
) -> Option<ImageInfoView> {
    |img: ImageRecord| unused_entry(img, in_use, threshold_days, now)
}

fn collect_in_use(containers: &Vec<ContainerRecord>) -> (r: Vec<String>)
    ensures
        texts(r@) == images_in_use(containers@),
{
    let mut out: Vec<String> = Vec::new();
    let mut i: usize = 0;
    assert(containers@.subrange(0, 0) =~= Seq::<ContainerRecord>::empty());
    assert(texts(out@) =~= Seq::<Seq<char>>::empty());
    while i < containers.len()
        invariant
            i <= containers.len(),
            texts(out@) == images_in_use(containers@.subrange(0, i as int)),
        decreases containers.len() - i,
    {
        assert(containers@.subrange(0, i + 1).drop_last() =~= containers@.subrange(0, i as int));
        assert(containers@.subrange(0, i + 1).last() == containers@[i as int]);
        let ghost before = texts(out@);
        match &containers[i].image {
            Some(s) => {
                let c = s.clone();
                assert(texts(out@.push(c)) =~= texts(out@).push(c@));
                out.push(c);
            },
            None => {},
        }
        let ghost mid = texts(out@);
        match &containers[i].image_id {
            Some(s) => {
                let c = s.clone();
                assert(texts(out@.push(c)) =~= texts(out@).push(c@));
                out.push(c);
            },
            None => {},
        }
        assert(texts(out@) =~= before + references_of(containers@[i as int]));
        i += 1;
    }
    assert(containers@.subrange(0, containers@.len() as int) =~= containers@);
    out
}

fn any_untagged(tags: &Vec<String>) -> (r: bool)
    ensures
        r == has_untagged(texts(tags@)),
{
    let mut i: usize = 0;
    while i < tags.len()
        invariant
            i <= tags.len(),
            forall|k: int| 0 <= k < i ==> !has_substring(#[trigger] texts(tags@)[k], "<none>"@),
        decreases tags.len() - i,
    {
        let t = to_chars(tags[i].as_str());
        if contains_str(&t, "<none>") {
            assert(has_substring(texts(tags@)[i as int], "<none>"@));
            return true;
        }
        i += 1;
    }
    false
}

fn any_tag_in(tags: &Vec<String>, in_use: &Vec<String>) -> (r: bool)
    ensures
        r == some_tag_in(texts(tags@), texts(in_use@)),
{
    let mut i: usize = 0;
    while i < tags.len()
        invariant
            i <= tags.len(),
            forall|k: int| 0 <= k < i ==> !texts(in_use@).contains(#[trigger] texts(tags@)[k]),
        decreases tags.len() - i,
    {
        if crate::health::set_holds(in_use, tags[i].as_str()) {
            assert(texts(in_use@).contains(texts(tags@)[i as int]));
            return true;
        }
        i += 1;
    }
    false
}

fn split_repo_and_tag(name: &str) -> (r: (String, String))
    ensures
        (r.0@, r.1@) == repo_and_tag(name@),
{
    let raw = to_chars(name);
    let parts = split(&raw, ':');
    let head = &parts[0];
    assert(rows(parts@)[0] == head@);
    proof {
        crate::packages::lemma_first_piece_is_prefix(raw@, ':');
    }
    if head.len() == raw.len() {
        (name.to_string(), "latest".to_string())
    } else {
        (from_chars(head), from_chars(&slice(&raw, head.len() + 1, raw.len())))
    }
}

fn unused_item(img: &ImageRecord, in_use: &Vec<String>, threshold_days: i64, now: i64) -> (r:
    Option<ImageInfo>)
    ensures
        match r {
            Some(item) => unused_entry(*img, texts(in_use@), threshold_days, now) == Some(item@),
            None => unused_entry(*img, texts(in_use@), threshold_days, now) is None,
        },
{
    assert(texts(img.repo_tags@).len() == img.repo_tags@.len());
    if img.repo_tags.len() == 0 || any_untagged(&img.repo_tags) {
        return None;
    }
    if crate::health::set_holds(in_use, img.id.as_str()) || any_tag_in(&img.repo_tags, in_use) {
        return None;
    }
    if age_in_days(now, img.created) < threshold_days as i128 {
        return None;
    }
    assert(texts(img.repo_tags@)[0] == img.repo_tags@[0]@);
    let (repository, tag) = split_repo_and_tag(img.repo_tags[0].as_str());
    Some(
        ImageInfo {
            repository,
            tag,
            image_id: img.id.clone(),
            size_bytes: clamp_size(img.size),
            created_timestamp: img.created,
        },
    )
}

/// Analyze unused images: the tagged images that no container, in any
/// state, refers to by id or tag, and that are at least `threshold_days` old
/// at `now`; in the order of the listing.
pub fn analyze_unused_images(
    images: &Vec<ImageRecord>,
    containers: &Vec<ContainerRecord>,
    threshold_days: i64,
    now: i64,
) -> (r: ImageStats)
    ensures
        r.items@.map_values(image_view()) == images@.filter_map(
            unused_rule(images_in_use(containers@), threshold_days, now),
        ),
        r.count == r.items@.len(),
        r.total_size_bytes == capped(
            total(
                images@.filter_map(
                    unused_rule(images_in_use(containers@), threshold_days, now),
                ).map_values(image_size()),
            ),
        ),
{
    let in_use = collect_in_use(containers);
    let ghost rule = unused_rule(images_in_use(containers@), threshold_days, now);
    let mut items: Vec<ImageInfo> = Vec::new();
    let mut sum: u64 = 0;
    let mut i: usize = 0;
    assert(images@.subrange(0, 0) =~= Seq::<ImageRecord>::empty());
    assert(items@.map_values(image_view()) =~= Seq::<ImageInfoView>::empty());
    assert(Seq::<ImageInfoView>::empty().map_values(image_size()) =~= Seq::<u64>::empty());
    while i < images.len()
        invariant
            i <= images.len(),
            texts(in_use@) == images_in_use(containers@),
            rule == unused_rule(images_in_use(containers@), threshold_days, now),
            items@.map_values(image_view()) == images@.subrange(0, i as int).filter_map(rule),
            sum == capped(total(items@.map_values(image_view()).map_values(image_size()))),
        decreases images.len() - i,
    {
        proof {
            lemma_filter_map_step(images@, i as int, rule);
        }
        match unused_item(&images[i], &in_use, threshold_days, now) {
            Some(item) => {
                let ghost before = items@.map_values(image_view());
                proof {
                    lemma_total_push(before.map_values(image_size()), item.size_bytes);
                }
                sum = sum.saturating_add(item.size_bytes);
                items.push(item);
                assert(items@.map_values(image_view()) =~= before.push(item@));
                assert(before.push(item@).map_values(image_size()) =~= before.map_values(
                    image_size(),
                ).push(item.size_bytes));
            },
            None => {},
        }
        i += 1;
    }
    assert(images@.subrange(0, images@.len() as int) =~= images@);
    ImageStats { count: items.len(), total_size_bytes: sum, items }
}

// ---------------------------------------------------------------------------
// Unused networks
// ---------------------------------------------------------------------------

/// The networks that Docker itself provides.
pub open spec fn is_default_network(name: Seq<char>) -> bool {
    name == "bridge"@ || name == "host"@ || name == "none"@
}

/// What a network adds to the unused networks: nothing where it is one of
/// the defaults or has containers attached.
pub open spec fn network_entry(n: NetworkRecord) -> Option<NetworkInfoView> {
    let name = or_text(n.name, ""@);
    if is_default_network(name) || n.attached > 0 {
        None
    } else {
        Some(
            NetworkInfoView {
                id: or_text(n.id, ""@),
                name: name,
                driver: or_text(n.driver, "unknown"@),
                created_timestamp: api_timestamp(opt_view(n.created)),
            },
        )
    }
}

pub open spec fn network_rule() -> spec_fn(NetworkRecord) -> Option<NetworkInfoView> {
    |n: NetworkRecord| network_entry(n)
}

/// Analyze unused Docker networks.
pub fn analyze_unused_networks(networks: &Vec<NetworkRecord>) -> (r: NetworkStats)
    ensures
        r.items@.map_values(network_view()) == networks@.filter_map(network_rule()),
        r.count == r.items@.len(),
{
    let mut items: Vec<NetworkInfo> = Vec::new();
    let mut i: usize = 0;
    assert(networks@.subrange(0, 0) =~= Seq::<NetworkRecord>::empty());
    assert(items@.map_values(network_view()) =~= Seq::<NetworkInfoView>::empty());
    while i < networks.len()
        invariant
            i <= networks.len(),
            items@.map_values(network_view()) == networks@.subrange(0, i as int).filter_map(
                network_rule(),
            ),
        decreases networks.len() - i,
    {
        proof {
            lemma_filter_map_step(networks@, i as int, network_rule());
        }
        let n = &networks[i];
        let name = text_or(&n.name, "");
        let plain = to_chars(name.as_str());
        let is_default = is_text(&plain, "bridge") || is_text(&plain, "host") || is_text(
            &plain,
            "none",
        );
        if !is_default && n.attached == 0 {
            let item = NetworkInfo {
                id: text_or(&n.id, ""),
                name,
                driver: text_or(&n.driver, "unknown"),
                created_timestamp: parse_api_timestamp(&n.created),
            };
            let ghost before = items@.map_values(network_view());
            items.push(item);
            assert(items@.map_values(network_view()) =~= before.push(item@));
        }
        i += 1;
    }
    assert(networks@.subrange(0, networks@.len() as int) =~= networks@);
    NetworkStats { count: items.len(), items }
}

// ---------------------------------------------------------------------------
// Build cache
// ---------------------------------------------------------------------------

/// A build cache item as a report holds it.
pub open spec fn cache_entry(c: BuildCacheRecord) -> BuildCacheView {
    BuildCacheView {
        id: or_text(c.id, ""@),
        cache_type: or_text(c.cache_type, "unknown"@),
        size_bytes: clamped(
            match c.size {
                Some(s) => s,
                None => 0,
            },
        ),
        created_timestamp: api_timestamp(opt_view(c.created_at)),
        last_used_timestamp: match c.last_used_at {
            Some(t) => rfc3339_seconds(t@),
            None => None,
        },
        in_use: c.in_use == Some(true),
        shared: c.shared == Some(true),
    }
}

pub open spec fn cache_rule() -> spec_fn(BuildCacheRecord) -> BuildCacheView {
    |c: BuildCacheRecord| cache_entry(c)
}

/// The size of an item where it is not in use, else 0.
pub open spec fn idle_size() -> spec_fn(BuildCacheView) -> u64 {
    |c: BuildCacheView| if c.in_use {
        0
    } else {
        c.size_bytes
    }
}

/// Analyze Docker build cache: every item, largest first, with the total
/// and with what is reclaimable, that is, not in use.
pub fn analyze_build_cache(records: &Vec<BuildCacheRecord>) -> (r: BuildCacheStats)
    ensures
        r.items@.map_values(cache_view()) == sorted_by(
            records@.map_values(cache_rule()),
            larger_cache(),
        ),
        r.total_size_bytes == capped(
            total(records@.map_values(cache_rule()).map_values(cache_size())),
        ),
        r.reclaimable_bytes == capped(
            total(records@.map_values(cache_rule()).map_values(idle_size())),
        ),
{
    let mut items: Vec<BuildCacheItem> = Vec::new();
    let mut sum: u64 = 0;
    let mut idle: u64 = 0;
    let mut i: usize = 0;
    let ghost all = records@.map_values(cache_rule());
    assert(Seq::<BuildCacheView>::empty().map_values(cache_size()) =~= Seq::<u64>::empty());
    assert(Seq::<BuildCacheView>::empty().map_values(idle_size()) =~= Seq::<u64>::empty());
    while i < records.len()
        invariant
            i <= records.len(),
            all == records@.map_values(cache_rule()),
            items@.map_values(cache_view()) =~= all.subrange(0, i as int),
            sum == capped(total(items@.map_values(cache_view()).map_values(cache_size()))),
            idle == capped(total(items@.map_values(cache_view()).map_values(idle_size()))),
        decreases records.len() - i,
    {
        let c = &records[i];
        let size = clamp_size(
            match c.size {
                Some(s) => s,
                None => 0,
            },
        );
        let in_use = match c.in_use {
            Some(b) => b,
            None => false,
        };
        let shared = match c.shared {
            Some(b) => b,
            None => false,
        };
        let last_used = match &c.last_used_at {
            Some(t) => crate::timestamps::parse_rfc3339(t.as_str()),
            None => None,
        };
        let item = BuildCacheItem {
            id: text_or(&c.id, ""),
            cache_type: text_or(&c.cache_type, "unknown"),
            size_bytes: size,
            created_timestamp: parse_api_timestamp(&c.created_at),
            last_used_timestamp: last_used,
            in_use,
            shared,
        };
        assert(item@ == cache_entry(records@[i as int]));
        let ghost before = items@.map_values(cache_view());
        let idle_part: u64 = if in_use {
            0
        } else {
            size
        };
        proof {
            lemma_total_push(before.map_values(cache_size()), size);
            lemma_total_push(before.map_values(idle_size()), idle_part);
        }
        sum = sum.saturating_add(size);
        idle = idle.saturating_add(idle_part);
        items.push(item);
        assert(items@.map_values(cache_view()) =~= before.push(item@));
        assert(before.push(item@).map_values(cache_size()) =~= before.map_values(
            cache_size(),
        ).push(size));
        assert(before.push(item@).map_values(idle_size()) =~= before.map_values(idle_size()).push(
            idle_part,
        ));
        i += 1;
    }
    assert(all.subrange(0, records@.len() as int) =~= all);
    let ghost collected = items@;
    let sorted_items = sort(items);
    proof {
        assert forall|a: BuildCacheItem, b: BuildCacheItem| #[trigger]
            order::<BuildCacheItem>()(a, b) == larger_cache()(cache_view()(a), cache_view()(b)) by {}
        lemma_sorted_maps(collected, cache_view(), order::<BuildCacheItem>(), larger_cache());
    }
    BuildCacheStats { total_size_bytes: sum, reclaimable_bytes: idle, items: sorted_items }
}

} // verus!

//! Layer analysis: which layers images share, and what sharing saves.

use crate::analyze::{lemma_total_push, total};
use crate::cleanup::{clamp_size, clamped, LayerAnalysis, SharedLayer};
use crate::numbers::capped;
use crate::sorting::{
    in_order, is_total, is_transitive, lemma_sorted_is_in_order, lemma_sorted_maps, order, sort,
    sorted_by, Listed,
};
use crate::text::{contains_str, from_chars, has_substring, slice, str_same, to_chars};
use crate::tokens::{copy_strings, lemma_filter_map_step, texts};
use vstd::prelude::*;

verus! {

/// An image with the ids of its layers, where an inspection gave them.
#[derive(Debug, Clone)]
pub struct LayeredImage {
    pub id: String,
    pub repo_tags: Vec<String>,
    pub size: i64,
    pub layers: Option<Vec<String>>,
}

/// What is known of one layer: the size estimated for it and the images
/// that use it, in the order in which they were seen.
pub struct LayerUse {
    pub layer_id: Seq<char>,
    pub size: u64,
    pub images: Seq<Seq<char>>,
}

struct LayerTally {
    layer_id: String,
    size: u64,
    images: Vec<String>,
}

impl View for LayerTally {
    type V = LayerUse;

    closed spec fn view(&self) -> LayerUse {
        LayerUse { layer_id: self.layer_id@, size: self.size, images: texts(self.images@) }
    }
}

spec fn tally_view() -> spec_fn(LayerTally) -> LayerUse {
    |t: LayerTally| t@
}

pub struct SharedLayerView {
    pub layer_id: Seq<char>,
    pub size_bytes: u64,
    pub shared_by_count: usize,
    pub images_using: Seq<Seq<char>>,
    pub created_timestamp: i64,
}

impl View for SharedLayer {
    type V = SharedLayerView;

    open spec fn view(&self) -> SharedLayerView {
        SharedLayerView {
            layer_id: self.layer_id@,
            size_bytes: self.size_bytes,
            shared_by_count: self.shared_by_count,
            images_using: texts(self.images_using@),
            created_timestamp: self.created_timestamp,
        }
    }
}

pub open spec fn shared_view() -> spec_fn(SharedLayer) -> SharedLayerView {
    |l: SharedLayer| l@
}

/// Largest first; among layers of one size, the one that more images share
/// first.
pub open spec fn weightier() -> spec_fn(SharedLayerView, SharedLayerView) -> bool {
    |a: SharedLayerView, b: SharedLayerView|
        a.size_bytes > b.size_bytes || (a.size_bytes == b.size_bytes && a.shared_by_count
            >= b.shared_by_count)
}

impl Listed for SharedLayer {
    open spec fn precedes(a: Self, b: Self) -> bool {
        a.size_bytes > b.size_bytes || (a.size_bytes == b.size_bytes && a.shared_by_count
            >= b.shared_by_count)
    }

    fn may_precede(&self, other: &Self) -> (r: bool) {
        self.size_bytes > other.size_bytes || (self.size_bytes == other.size_bytes
            && self.shared_by_count >= other.shared_by_count)
    }
}

/// Whether the layer is known already.
pub open spec fn holds_layer(usage: Seq<LayerUse>, id: Seq<char>) -> bool {
    exists|k: int| 0 <= k < usage.len() && (#[trigger] usage[k]).layer_id == id
}

pub open spec fn is_first_at(usage: Seq<LayerUse>, id: Seq<char>, k: int) -> bool {
    &&& 0 <= k < usage.len()
    &&& usage[k].layer_id == id
    &&& forall|j: int| 0 <= j < k ==> (#[trigger] usage[j]).layer_id != id
}

/// Where the layer stands.
pub open spec fn position(usage: Seq<LayerUse>, id: Seq<char>) -> int {
    choose|k: int| is_first_at(usage, id, k)
}

/// The usage once an image was seen to use a layer: the image is added to
/// the layer's users and the layer's size becomes the estimate made from
/// that image; a layer not seen before is added at the end.
pub open spec fn noted(usage: Seq<LayerUse>, id: Seq<char>, image: Seq<char>, approx: u64) -> Seq<
    LayerUse,
> {
    if holds_layer(usage, id) {
        let k = position(usage, id);
        usage.update(
            k,
            LayerUse { layer_id: id, size: approx, images: usage[k].images.push(image) },
        )
    } else {
        usage.push(LayerUse { layer_id: id, size: approx, images: seq![image] })
    }
}

/// The usage once the first `n` layers of an image were noted.
pub open spec fn noted_layers(
    usage: Seq<LayerUse>,
    layers: Seq<Seq<char>>,
    n: nat,
    image: Seq<char>,
    approx: u64,
) -> Seq<LayerUse>
    recommends
        n <= layers.len(),
    decreases n,
{
    if n == 0 {
        usage
    } else {
        noted(noted_layers(usage, layers, (n - 1) as nat, image, approx), layers[n - 1], image, approx)
    }
}

/// An image counts where it has a tag and its first tag is no `<none>`.
pub open spec fn is_considered(img: LayeredImage) -> bool {
    img.repo_tags@.len() > 0 && !has_substring(img.repo_tags@[0]@, "<none>"@)
}

/// The size estimated for each layer of an image: the image's size spread
/// evenly over its layers.
pub open spec fn approx_size(img: LayeredImage) -> u64 {
    if img.layers is Some && img.layers->0@.len() > 0 {
        (clamped(img.size) / (img.layers->0@.len() as u64)) as u64
    } else {
        0
    }
}

/// The usage of layers over a list of images.
pub open spec fn layer_usage(images: Seq<LayeredImage>) -> Seq<LayerUse>
    decreases images.len(),
{
    if images.len() == 0 {
        Seq::<LayerUse>::empty()
    } else {
        let prev = layer_usage(images.drop_last());
        let img = images.last();
        if is_considered(img) && img.layers is Some {
            noted_layers(
                prev,
                texts(img.layers->0@),
                img.layers->0@.len(),
                img.repo_tags@[0]@,
                approx_size(img),
            )
        } else {
            prev
        }
    }
}

/// The sum of the sizes of the images that count, each taken whole.
pub open spec fn image_sizes(images: Seq<LayeredImage>) -> int
    decreases images.len(),
{
    if images.len() == 0 {
        0
    } else {
        image_sizes(images.drop_last()) + if is_considered(images.last()) {
            images.last().size as int
        } else {
            0
        }
    }
}

/// The short form of a layer id: the twelve characters behind its
/// seven-character digest prefix, as far as the id goes.
pub open spec fn layer_short(id: Seq<char>) -> Seq<char> {
    if id.len() <= 7 {
        Seq::<char>::empty()
    } else if id.len() <= 19 {
        id.subrange(7, id.len() as int)
    } else {
        id.subrange(7, 19)
    }
}

/// What a layer adds to the shared layers: nothing unless two or more
/// images use it.
pub open spec fn shared_entry(u: LayerUse) -> Option<SharedLayerView> {
    if u.images.len() > 1 {
        Some(
            SharedLayerView {
                layer_id: layer_short(u.layer_id),
                size_bytes: u.size,
                shared_by_count: u.images.len() as usize,
                images_using: u.images,
                created_timestamp: 0,
            },
        )
    } else {
        None
    }
}

pub open spec fn shared_rule() -> spec_fn(LayerUse) -> Option<SharedLayerView> {
    |u: LayerUse| shared_entry(u)
}

pub open spec fn shared_size() -> spec_fn(LayerUse) -> u64 {
    |u: LayerUse| if u.images.len() > 1 {
        u.size
    } else {
        0
    }
}

pub open spec fn unique_size() -> spec_fn(LayerUse) -> u64 {
    |u: LayerUse| if u.images.len() > 1 {
        0
    } else {
        u.size
    }
}

/// The bytes that the images would take without sharing: the sum of their
/// sizes, and at least 1.
pub open spec fn theoretical_spec(images: Seq<LayeredImage>) -> u64 {
    if image_sizes(images) < 1 {
        1
    } else {
        capped(image_sizes(images) as nat)
    }
}

/// What sharing saves: the theoretical bytes less the shared and unique
/// bytes; 0 where that is negative and where no layer was found.
pub open spec fn saved_spec(theoretical: u64, shared: u64, unique: u64) -> u64 {
    if shared + unique == 0 || theoretical <= shared + unique {
        0
    } else {
        (theoretical - (shared + unique)) as u64
    }
}

fn find_layer(usage: &Vec<LayerTally>, id: &str) -> (r: Option<usize>)
    ensures
        match r {
            Some(k) => holds_layer(usage@.map_values(tally_view()), id@) && k == position(
                usage@.map_values(tally_view()),
                id@,
            ) && k < usage@.len() && is_first_at(usage@.map_values(tally_view()), id@, k as int),
            None => !holds_layer(usage@.map_values(tally_view()), id@),
        },
{
    let ghost model = usage@.map_values(tally_view());
    let mut k: usize = 0;
    while k < usage.len()
        invariant
            k <= usage.len(),
            model == usage@.map_values(tally_view()),
            forall|j: int| 0 <= j < k ==> (#[trigger] model[j]).layer_id != id@,
        decreases usage.len() - k,
    {
        if str_same(usage[k].layer_id.as_str(), id) {
            assert(model[k as int].layer_id == id@);
            assert(is_first_at(model, id@, k as int));
            let ghost p = position(model, id@);
            assert(is_first_at(model, id@, p));
            assert(p == k);
            return Some(k);
        }
        k += 1;
    }
    None
}

fn note_layer(usage: &mut Vec<LayerTally>, id: &str, image: &str, approx: u64)
    ensures
        final(usage)@.map_values(tally_view()) == noted(
            old(usage)@.map_values(tally_view()),
            id@,
            image@,
            approx,
        ),
{
    let ghost before = usage@.map_values(tally_view());
    match find_layer(usage, id) {
        Some(k) => {
            assert(before[k as int] == usage@[k as int]@);
            let mut entry = usage.remove(k);
            let ghost users = texts(entry.images@);
            let name = image.to_string();
            assert(texts(entry.images@.push(name)) =~= users.push(name@));
            entry.images.push(name);
            entry.size = approx;
            assert(entry@.layer_id == id@);
            usage.insert(k, entry);
            assert(usage@.map_values(tally_view()) =~= before.update(
                k as int,
                LayerUse { layer_id: id@, size: approx, images: before[k as int].images.push(image@) },
            ));
        },
        None => {
            let mut images: Vec<String> = Vec::new();
            let name = image.to_string();
            images.push(name);
            assert(texts(images@) =~= seq![image@]);
            let entry = LayerTally { layer_id: id.to_string(), size: approx, images };
            usage.push(entry);
            assert(usage@.map_values(tally_view()) =~= before.push(
                LayerUse { layer_id: id@, size: approx, images: seq![image@] },
            ));
        },
    }
}

fn considered(img: &LayeredImage) -> (r: bool)
    ensures
        r == is_considered(*img),
{
    if img.repo_tags.len() == 0 {
        return false;
    }
    let first = to_chars(img.repo_tags[0].as_str());
    !contains_str(&first, "<none>")
}

fn usage_of(images: &Vec<LayeredImage>) -> (r: (Vec<LayerTally>, i128))
    ensures
        r.0@.map_values(tally_view()) == layer_usage(images@),
        r.1 == image_sizes(images@),
{
    let mut usage: Vec<LayerTally> = Vec::new();
    let mut sizes: i128 = 0;
    let mut i: usize = 0;
    assert(images@.subrange(0, 0) =~= Seq::<LayeredImage>::empty());
    assert(usage@.map_values(tally_view()) =~= Seq::<LayerUse>::empty());
    while i < images.len()
        invariant
            i <= images.len(),
            usage@.map_values(tally_view()) == layer_usage(images@.subrange(0, i as int)),
            sizes == image_sizes(images@.subrange(0, i as int)),
            -(i as int) * 0x8000_0000_0000_0000 <= sizes <= (i as int) * 0x8000_0000_0000_0000,
        decreases images.len() - i,
    {
        assert(images@.subrange(0, i + 1).drop_last() =~= images@.subrange(0, i as int));
        assert(images@.subrange(0, i + 1).last() == images@[i as int]);
        let img = &images[i];
        if considered(img) {
            assert((i as int + 1) * 0x8000_0000_0000_0000 == (i as int) * 0x8000_0000_0000_0000
                + 0x8000_0000_0000_0000) by (nonlinear_arith);
            assert((i as int) * 0x8000_0000_0000_0000 <= 0xffff_ffff_ffff_ffff
                * 0x8000_0000_0000_0000) by (nonlinear_arith)
                requires
                    i <= 0xffff_ffff_ffff_ffff,
            ;
            sizes = sizes + img.size as i128;
            match &img.layers {
                Some(layers) => {
                    let ghost start = usage@.map_values(tally_view());
                    let name = img.repo_tags[0].as_str();
                    let count = layers.len();
                    let approx: u64 = if count > 0 {
                        clamp_size(img.size) / (count as u64)
                    } else {
                        0
                    };
                    let mut k: usize = 0;
                    while k < count
                        invariant
                            k <= count,
                            count == layers@.len(),
                            name@ == img.repo_tags@[0]@,
                            usage@.map_values(tally_view()) == noted_layers(
                                start,
                                texts(layers@),
                                k as nat,
                                name@,
                                approx,
                            ),
                        decreases count - k,
                    {
                        assert(texts(layers@)[k as int] == layers@[k as int]@);
                        note_layer(&mut usage, layers[k].as_str(), name, approx);
                        k += 1;
                    }
                },
                None => {},
            }
        } else {
            assert((i as int + 1) * 0x8000_0000_0000_0000 == (i as int) * 0x8000_0000_0000_0000
                + 0x8000_0000_0000_0000) by (nonlinear_arith);
        }
        i += 1;
    }
    assert(images@.subrange(0, images@.len() as int) =~= images@);
    (usage, sizes)
}

fn short_layer_id(id: &str) -> (r: String)
    ensures
        r@ == layer_short(id@),
{
    let raw = to_chars(id);
    if raw.len() <= 7 {
        let e = slice(&raw, 0, 0);
        assert(e@ =~= Seq::<char>::empty());
        from_chars(&e)
    } else if raw.len() <= 19 {
        from_chars(&slice(&raw, 7, raw.len()))
    } else {
        from_chars(&slice(&raw, 7, 19))
    }
}

fn split_usage(usage: &Vec<LayerTally>) -> (r: (Vec<SharedLayer>, u64, u64))
    ensures
        r.0@.map_values(shared_view()) == usage@.map_values(tally_view()).filter_map(shared_rule()),
        r.1 == capped(total(usage@.map_values(tally_view()).map_values(shared_size()))),
        r.2 == capped(total(usage@.map_values(tally_view()).map_values(unique_size()))),
{
    let ghost model = usage@.map_values(tally_view());
    let mut shared: Vec<SharedLayer> = Vec::new();
    let mut shared_bytes: u64 = 0;
    let mut unique_bytes: u64 = 0;
    let mut i: usize = 0;
    assert(model.subrange(0, 0) =~= Seq::<LayerUse>::empty());
    assert(shared@.map_values(shared_view()) =~= Seq::<SharedLayerView>::empty());
    assert(model.map_values(shared_size()).subrange(0, 0) =~= Seq::<u64>::empty());
    assert(model.map_values(unique_size()).subrange(0, 0) =~= Seq::<u64>::empty());
    while i < usage.len()
        invariant
            i <= usage.len(),
            model == usage@.map_values(tally_view()),
            shared@.map_values(shared_view()) == model.subrange(0, i as int).filter_map(
                shared_rule(),
            ),
            shared_bytes == capped(total(model.map_values(shared_size()).subrange(0, i as int))),
            unique_bytes == capped(total(model.map_values(unique_size()).subrange(0, i as int))),
        decreases usage.len() - i,
    {
        proof {
            lemma_filter_map_step(model, i as int, shared_rule());
        }
        let u = &usage[i];
        assert(model[i as int] == u@);
        assert(texts(u.images@).len() == u.images@.len());
        let is_shared = u.images.len() > 1;
        let s: u64 = if is_shared {
            u.size
        } else {
            0
        };
        let q: u64 = if is_shared {
            0
        } else {
            u.size
        };
        proof {
            let a = model.map_values(shared_size());
            let b = model.map_values(unique_size());
            lemma_total_push(a.subrange(0, i as int), s);
            lemma_total_push(b.subrange(0, i as int), q);
            assert(a.subrange(0, i + 1) =~= a.subrange(0, i as int).push(s));
            assert(b.subrange(0, i + 1) =~= b.subrange(0, i as int).push(q));
        }
        shared_bytes = shared_bytes.saturating_add(s);
        unique_bytes = unique_bytes.saturating_add(q);
        if is_shared {
            let item = SharedLayer {
                layer_id: short_layer_id(u.layer_id.as_str()),
                size_bytes: u.size,
                shared_by_count: u.images.len(),
                images_using: copy_strings(&u.images),
                created_timestamp: 0,
            };
            let ghost before = shared@.map_values(shared_view());
            shared.push(item);
            assert(shared@.map_values(shared_view()) =~= before.push(item@));
        }
        i += 1;
    }
    assert(model.subrange(0, model.len() as int) =~= model);
    assert(model.map_values(shared_size()).subrange(0, model.len() as int) =~= model.map_values(
        shared_size(),
    ));
    assert(model.map_values(unique_size()).subrange(0, model.len() as int) =~= model.map_values(
        unique_size(),
    ));
    (shared, shared_bytes, unique_bytes)
}

/// Where no image counts, no layer is in use.
pub proof fn lemma_no_images_no_usage(images: Seq<LayeredImage>)
    requires
        forall|i: int| 0 <= i < images.len() ==> !is_considered(#[trigger] images[i]),
    ensures
        layer_usage(images) == Seq::<LayerUse>::empty(),
    decreases images.len(),
{
    if images.len() > 0 {
        assert forall|i: int| 0 <= i < images.drop_last().len() implies !is_considered(
            #[trigger] images.drop_last()[i],
        ) by {
            assert(images.drop_last()[i] == images[i]);
        }
        lemma_no_images_no_usage(images.drop_last());
        assert(!is_considered(images[images.len() - 1]));
    }
}

/// Analyze image layers to identify sharing and efficiency.
///
/// A layer's size is an estimate: the size of the image that was seen last
/// to use it, spread evenly over that image's layers.
pub fn analyze_layers(images: &Vec<LayeredImage>) -> (r: LayerAnalysis)
    ensures
        r.shared_layers@.map_values(shared_view()) == sorted_by(
            layer_usage(images@).filter_map(shared_rule()),
            weightier(),
        ),
        in_order(r.shared_layers@.map_values(shared_view()), weightier()),
        r.total_shared_bytes == capped(total(layer_usage(images@).map_values(shared_size()))),
        r.total_unique_bytes == capped(total(layer_usage(images@).map_values(unique_size()))),
        r.theoretical_bytes == theoretical_spec(images@),
        r.saved_bytes == saved_spec(r.theoretical_bytes, r.total_shared_bytes, r.total_unique_bytes),
        (forall|i: int| 0 <= i < images@.len() ==> !is_considered(#[trigger] images@[i]))
            ==> r.shared_layers@.len() == 0 && r.efficiency_spec() == 0,
{
    let (usage, sizes) = usage_of(images);
    let (shared, shared_bytes, unique_bytes) = split_usage(&usage);
    let ghost collected = shared@;
    let sorted_layers = sort(shared);
    proof {
        assert forall|a: SharedLayer, b: SharedLayer| #[trigger]
            order::<SharedLayer>()(a, b) == weightier()(shared_view()(a), shared_view()(b)) by {}
        lemma_sorted_maps(collected, shared_view(), order::<SharedLayer>(), weightier());
        assert(is_total(weightier())) by {
            assert forall|a: SharedLayerView, b: SharedLayerView| #[trigger]
                weightier()(a, b) || weightier()(b, a) by {}
        }
        assert(is_transitive(weightier())) by {
            assert forall|a: SharedLayerView, b: SharedLayerView, c: SharedLayerView| #[trigger]
                weightier()(a, b) && #[trigger] weightier()(b, c) implies weightier()(a, c) by {}
        }
        lemma_sorted_is_in_order(collected.map_values(shared_view()), weightier());
    }
    let theoretical: u64 = if sizes < 1 {
        1
    } else if sizes > 0xffff_ffff_ffff_ffff {
        u64::MAX
    } else {
        sizes as u64
    };
    let actual: u128 = shared_bytes as u128 + unique_bytes as u128;
    let saved: u64 = if actual == 0 || theoretical as u128 <= actual {
        0
    } else {
        (theoretical as u128 - actual) as u64
    };
    proof {
        if forall|i: int| 0 <= i < images@.len() ==> !is_considered(#[trigger] images@[i]) {
            lemma_no_images_no_usage(images@);
            assert(layer_usage(images@).map_values(shared_size()) =~= Seq::<u64>::empty());
            assert(layer_usage(images@).map_values(unique_size()) =~= Seq::<u64>::empty());
            assert(collected.map_values(shared_view()).len() == 0);
            assert(collected.len() == 0);
        }
    }
    LayerAnalysis {
        shared_layers: sorted_layers,
        total_shared_bytes: shared_bytes,
        total_unique_bytes: unique_bytes,
        theoretical_bytes: theoretical,
        saved_bytes: saved,
    }
}

} // verus!

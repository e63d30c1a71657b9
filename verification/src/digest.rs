//! Update-available detection for Docker images: an image has an update
//! where the digest of the local image differs from the digest that the
//! registry gives for its tag.

use crate::inventory::DockerImage;
use crate::json::{json_length_at, json_text_at, length_at, text_at};
use crate::sorting::{lemma_sorted_maps, order, sort, sorted_by, Listed};
use crate::text::{from_chars, is_text, lex_le, push_str, str_same, text_le, to_chars, trim, trimmed, opt_str};
use crate::tokens::{lemma_filter_map_step, lines, lines_of, rows, split, split_on, texts};
use vstd::prelude::*;

verus! {

/// An image and one of its tags.
#[derive(Debug, Clone)]
pub struct ImageRef {
    pub repository: String,
    pub tag: String,
}

/// What a line of the image listing names: the repository and the tag that
/// it gives, unless the line is blank, is no JSON object with both, or names
/// an untagged image.
pub open spec fn image_candidate(line: Seq<char>) -> Option<(Seq<char>, Seq<char>)> {
    if trimmed(line).len() == 0 {
        None
    } else {
        match (json_text_at(line, "/Repository"@), json_text_at(line, "/Tag"@)) {
            (Some(repository), Some(tag)) => if tag == "<none>"@ || repository == "<none>"@ {
                None
            } else {
                Some((repository, tag))
            },
            _ => None,
        }
    }
}

pub open spec fn candidate_rule() -> spec_fn(Seq<char>) -> Option<(Seq<char>, Seq<char>)> {
    |line: Seq<char>| image_candidate(line)
}

pub open spec fn ref_view() -> spec_fn(ImageRef) -> (Seq<char>, Seq<char>) {
    |r: ImageRef| (r.repository@, r.tag@)
}

/// The arguments that list the images, one JSON object per line.
pub fn images_args() -> (r: Vec<String>)
    ensures
        texts(r@) == seq!["images"@, "--format"@, "{{json .}}"@],
{
    let mut a: Vec<String> = Vec::new();
    a.push("images".to_string());
    a.push("--format".to_string());
    a.push("{{json .}}".to_string());
    assert(texts(a@) =~= seq!["images"@, "--format"@, "{{json .}}"@]);
    a
}

/// The images to check, in the order of the listing.
pub fn image_candidates(output: &str) -> (r: Vec<ImageRef>)
    ensures
        r@.map_values(ref_view()) == lines_of(output@).filter_map(candidate_rule()),
{
    let raw = to_chars(output);
    let all = lines(&raw);
    let mut found: Vec<ImageRef> = Vec::new();
    let mut i: usize = 0;
    assert(rows(all@).subrange(0, 0) =~= Seq::<Seq<char>>::empty());
    assert(found@.map_values(ref_view()) =~= Seq::<(Seq<char>, Seq<char>)>::empty());
    while i < all.len()
        invariant
            i <= all.len(),
            found@.map_values(ref_view()) == rows(all@).subrange(0, i as int).filter_map(
                candidate_rule(),
            ),
        decreases all.len() - i,
    {
        proof {
            lemma_filter_map_step(rows(all@), i as int, candidate_rule());
        }
        if trim(&all[i]).len() > 0 {
            let line = from_chars(&all[i]);
            match (text_at(line.as_str(), "/Repository"), text_at(line.as_str(), "/Tag")) {
                (Some(repository), Some(tag)) => {
                    if !str_same(tag.as_str(), "<none>") && !str_same(
                        repository.as_str(),
                        "<none>",
                    ) {
                        let item = ImageRef { repository, tag };
                        let ghost before = found@.map_values(ref_view());
                        found.push(item);
                        assert(found@.map_values(ref_view()) =~= before.push(
                            (item.repository@, item.tag@),
                        ));
                    }
                },
                _ => {},
            }
        }
        i += 1;
    }
    assert(rows(all@).subrange(0, all@.len() as int) =~= rows(all@));
    found
}

/// The name of an image with its tag.
pub open spec fn tagged_name(repository: Seq<char>, tag: Seq<char>) -> Seq<char> {
    repository + ":"@ + tag
}

fn tagged(repository: &str, tag: &str) -> (r: String)
    ensures
        r@ == tagged_name(repository@, tag@),
{
    let mut out = to_chars(repository);
    push_str(&mut out, ":");
    push_str(&mut out, tag);
    from_chars(&out)
}

/// The arguments that give the repository digest of the local image.
pub fn local_digest_args(image: &ImageRef) -> (r: Vec<String>)
    ensures
        texts(r@) == seq![
            "inspect"@,
            tagged_name(image.repository@, image.tag@),
            "--format={{index .RepoDigests 0}}"@,
        ],
{
    let mut a: Vec<String> = Vec::new();
    a.push("inspect".to_string());
    a.push(tagged(image.repository.as_str(), image.tag.as_str()));
    a.push("--format={{index .RepoDigests 0}}".to_string());
    assert(texts(a@) =~= seq![
        "inspect"@,
        tagged_name(image.repository@, image.tag@),
        "--format={{index .RepoDigests 0}}"@,
    ]);
    a
}

/// The arguments that fetch the manifest of the image's tag from the
/// registry.
pub fn manifest_args(image: &ImageRef) -> (r: Vec<String>)
    ensures
        texts(r@) == seq!["manifest"@, "inspect"@, tagged_name(image.repository@, image.tag@)],
{
    let mut a: Vec<String> = Vec::new();
    a.push("manifest".to_string());
    a.push("inspect".to_string());
    a.push(tagged(image.repository.as_str(), image.tag.as_str()));
    assert(texts(a@) =~= seq![
        "manifest"@,
        "inspect"@,
        tagged_name(image.repository@, image.tag@),
    ]);
    a
}

/// The digest of the local image, by the output of its inspection: what
/// follows the first `@` of the repository digest `repo@sha256:...`, up to
/// the next one; none where the output is blank, is `<no value>`, or has no
/// `@`.
pub open spec fn local_digest_spec(output: Seq<char>) -> Option<Seq<char>> {
    let t = trimmed(output);
    if t.len() == 0 || t == "<no value>"@ || split_on(t, '@').len() < 2 {
        None
    } else {
        Some(split_on(t, '@')[1])
    }
}

pub fn local_digest(output: &str) -> (r: Option<String>)
    ensures
        match r {
            Some(d) => local_digest_spec(output@) == Some(d@),
            None => local_digest_spec(output@) is None,
        },
{
    let t = trim(&to_chars(output));
    if t.len() == 0 || is_text(&t, "<no value>") {
        return None;
    }
    let parts = split(&t, '@');
    assert(rows(parts@).len() == parts@.len());
    if parts.len() < 2 {
        return None;
    }
    assert(rows(parts@)[1] == parts@[1]@);
    Some(from_chars(&parts[1]))
}

/// The digest that the registry gives, by the manifest: the digest of the
/// image's configuration, or, for a manifest list, the digest of its first
/// manifest. A list is an array: what stands under `manifests` otherwise
/// gives no digest.
pub open spec fn remote_digest_spec(manifest: Seq<char>) -> Option<Seq<char>> {
    match json_text_at(manifest, "/config/digest"@) {
        Some(d) => Some(d),
        None => if json_length_at(manifest, "/manifests"@) is Some {
            json_text_at(manifest, "/manifests/0/digest"@)
        } else {
            None
        },
    }
}

pub fn remote_digest(manifest: &str) -> (r: Option<String>)
    ensures
        match r {
            Some(d) => remote_digest_spec(manifest@) == Some(d@),
            None => remote_digest_spec(manifest@) is None,
        },
{
    match text_at(manifest, "/config/digest") {
        Some(d) => Some(d),
        None => match length_at(manifest, "/manifests") {
            Some(_) => text_at(manifest, "/manifests/0/digest"),
            None => None,
        },
    }
}

/// Whether two digests tell of an update: both are known and they differ.
/// Identical digests never do, and a digest that is not known never does.
pub fn digests_differ(local: Option<&str>, remote: Option<&str>) -> (r: bool)
    ensures
        r == (local is Some && remote is Some && local->0@ != remote->0@),
        local is Some && remote is Some && local->0@ == remote->0@ ==> !r,
        local is None || remote is None ==> !r,
{
    match (local, remote) {
        (Some(l), Some(m)) => !str_same(l, m),
        _ => false,
    }
}

/// Whether an image has an update, by the outputs of the local inspection
/// and of the manifest fetch; a command that failed gave no output. Any
/// failure and any missing digest mean no update.
pub open spec fn has_update_spec(inspection: Option<Seq<char>>, manifest: Option<Seq<char>>) -> bool {
    match (inspection, manifest) {
        (Some(i), Some(m)) => match (local_digest_spec(i), remote_digest_spec(m)) {
            (Some(l), Some(r)) => l != r,
            _ => false,
        },
        _ => false,
    }
}

pub fn has_update(inspection: Option<&str>, manifest: Option<&str>) -> (r: bool)
    ensures
        r == has_update_spec(opt_str(inspection), opt_str(manifest)),
{
    match (inspection, manifest) {
        (Some(i), Some(m)) => {
            let l = local_digest(i);
            let r = remote_digest(m);
            match (&l, &r) {
                (Some(a), Some(b)) => digests_differ(Some(a.as_str()), Some(b.as_str())),
                _ => false,
            }
        },
        _ => false,
    }
}

/// Whether the manifest is worth fetching: only where the local digest is
/// known.
pub fn needs_manifest(inspection: Option<&str>) -> (r: bool)
    ensures
        r == (inspection is Some && local_digest_spec(inspection->0@) is Some),
{
    match inspection {
        Some(i) => local_digest(i).is_some(),
        None => false,
    }
}

// ---------------------------------------------------------------------------
// The finished list
// ---------------------------------------------------------------------------

pub struct DockerImageView {
    pub name: Seq<char>,
    pub current_tag: Seq<char>,
    pub has_update: bool,
}

impl View for DockerImage {
    type V = DockerImageView;

    open spec fn view(&self) -> DockerImageView {
        DockerImageView {
            name: self.name@,
            current_tag: self.current_tag@,
            has_update: self.has_update,
        }
    }
}

pub open spec fn docker_image_view() -> spec_fn(DockerImage) -> DockerImageView {
    |i: DockerImage| i@
}

/// By name and tag, in the order of a dictionary.
pub open spec fn by_tagged_name() -> spec_fn(DockerImageView, DockerImageView) -> bool {
    |a: DockerImageView, b: DockerImageView|
        lex_le(tagged_name(a.name, a.current_tag), tagged_name(b.name, b.current_tag))
}

impl Listed for DockerImage {
    open spec fn precedes(a: Self, b: Self) -> bool {
        lex_le(tagged_name(a.name@, a.current_tag@), tagged_name(b.name@, b.current_tag@))
    }

    fn may_precede(&self, other: &Self) -> (r: bool) {
        let a = tagged(self.name.as_str(), self.current_tag.as_str());
        let b = tagged(other.name.as_str(), other.current_tag.as_str());
        text_le(&to_chars(a.as_str()), &to_chars(b.as_str()))
    }
}

/// The images without repeats: of neighbours with one name and tag, the
/// first stays.
pub open spec fn without_repeats(images: Seq<DockerImageView>) -> Seq<DockerImageView>
    decreases images.len(),
{
    if images.len() == 0 {
        Seq::<DockerImageView>::empty()
    } else {
        let kept = without_repeats(images.drop_last());
        if kept.len() > 0 && kept.last().name == images.last().name && kept.last().current_tag
            == images.last().current_tag {
            kept
        } else {
            kept.push(images.last())
        }
    }
}

/// The list of images as a report takes it: sorted by name and tag, each
/// name and tag once.
pub fn finish_image_list(images: Vec<DockerImage>) -> (r: Vec<DockerImage>)
    ensures
        r@.map_values(docker_image_view()) == without_repeats(
            sorted_by(images@.map_values(docker_image_view()), by_tagged_name()),
        ),
{
    let ghost given = images@;
    let mut rest = sort(images);
    proof {
        assert forall|a: DockerImage, b: DockerImage| #[trigger]
            order::<DockerImage>()(a, b) == by_tagged_name()(
                docker_image_view()(a),
                docker_image_view()(b),
            ) by {}
        lemma_sorted_maps(given, docker_image_view(), order::<DockerImage>(), by_tagged_name());
    }
    let ghost all = rest@.map_values(docker_image_view());
    let n = rest.len();
    let mut out: Vec<DockerImage> = Vec::new();
    let mut i: usize = 0;
    assert(all.subrange(0, 0) =~= Seq::<DockerImageView>::empty());
    assert(out@.map_values(docker_image_view()) =~= Seq::<DockerImageView>::empty());
    while i < n
        invariant
            i <= n,
            n == all.len(),
            rest@.len() == n - i,
            rest@.map_values(docker_image_view()) =~= all.subrange(i as int, n as int),
            out@.map_values(docker_image_view()) == without_repeats(all.subrange(0, i as int)),
        decreases n - i,
    {
        assert(all.subrange(0, i + 1).drop_last() =~= all.subrange(0, i as int));
        let ghost shown = rest@.map_values(docker_image_view());
        let ghost held = rest@;
        assert(shown[0] == rest@[0]@);
        let item = rest.remove(0);
        assert(item@ == shown[0]);
        assert(all.subrange(0, i + 1).last() == item@);
        assert forall|k: int| 0 <= k < rest@.len() implies (#[trigger] rest@[k])@ == all[i + 1
            + k] by {
            assert(rest@[k] == held[k + 1]);
            assert(shown[k + 1] == held[k + 1]@);
            assert(shown[k + 1] == all.subrange(i as int, n as int)[k + 1]);
        }
        assert(rest@.map_values(docker_image_view()) =~= all.subrange(i + 1, n as int));
        let repeat = out.len() > 0 && str_same(
            out[out.len() - 1].name.as_str(),
            item.name.as_str(),
        ) && str_same(out[out.len() - 1].current_tag.as_str(), item.current_tag.as_str());
        proof {
            if out@.len() > 0 {
                assert(out@.map_values(docker_image_view()).last() == out@[out@.len() - 1]@);
            }
        }
        if !repeat {
            let ghost before = out@.map_values(docker_image_view());
            out.push(item);
            assert(out@.map_values(docker_image_view()) =~= before.push(item@));
        }
        i += 1;
    }
    assert(all.subrange(0, n as int) =~= all);
    out
}

} // verus!

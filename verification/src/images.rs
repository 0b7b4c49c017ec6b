//! Agent image metadata and the effective image list.
use vstd::prelude::*;

use crate::escape::{join_strings, push_string_item, strings_view};
use crate::text::{join_spec, push_chars, str_chars};

verus! {

/// Key metadata of a container image.
#[derive(Clone, Debug)]
pub struct ImageMetadata {
    pub created: Option<String>,
    pub id: Option<String>,
    pub digest: Option<String>,
    pub tag: Option<String>,
    pub title: Option<String>,
    pub version: Option<String>,
    pub revision: Option<String>,
}

/// `prefix + v` when the field is set.
pub open spec fn part(prefix: Seq<char>, v: Option<String>) -> Seq<Seq<char>> {
    match v {
        Some(s) => seq![prefix + s@],
        None => seq![],
    }
}

/// `id=` shows at most the first 12 characters of the id.
pub open spec fn id_part(v: Option<String>) -> Seq<Seq<char>> {
    match v {
        Some(s) => seq!["id="@ + s@.take(if s@.len() < 12 { s@.len() as int } else { 12 })],
        None => seq![],
    }
}

/// The present fields as `build=`, `version=`, `rev=`, `id=`, `tag=`, `digest=`,
/// `title=` parts, joined by single spaces.
pub open spec fn format_metadata_spec(m: ImageMetadata) -> Seq<char> {
    join_spec(
        part("build="@, m.created) + part("version="@, m.version) + part("rev="@, m.revision) + id_part(m.id)
            + part("tag="@, m.tag) + part("digest="@, m.digest) + part("title="@, m.title),
        " "@,
    )
}

fn push_field(v: &mut Vec<String>, prefix: &str, field: &Option<String>)
    ensures
        strings_view(final(v)@) == strings_view(old(v)@) + part(prefix@, *field),
{
    if let Some(x) = field {
        let mut item = prefix.to_owned();
        item.push_str(x.as_str());
        push_string_item(v, item);
    }
    assert(strings_view(v@) =~= strings_view(old(v)@) + part(prefix@, *field));
}

/// Format image metadata for concise verbose logging.
pub fn format_image_metadata(meta: &ImageMetadata) -> (s: String)
    ensures
        s@ == format_metadata_spec(*meta),
{
    let mut parts: Vec<String> = Vec::new();
    push_field(&mut parts, "build=", &meta.created);
    push_field(&mut parts, "version=", &meta.version);
    push_field(&mut parts, "rev=", &meta.revision);
    let ghost before = strings_view(parts@);
    if let Some(id) = &meta.id {
        let cs = str_chars(id.as_str());
        let n: usize = if cs.len() < 12 { cs.len() } else { 12 };
        let short = crate::text::slice_to_vec(cs.as_slice(), 0, n);
        let mut item = "id=".to_owned();
        push_chars(&mut item, short.as_slice());
        push_string_item(&mut parts, item);
    }
    assert(strings_view(parts@) =~= before + id_part(meta.id));
    push_field(&mut parts, "tag=", &meta.tag);
    push_field(&mut parts, "digest=", &meta.digest);
    push_field(&mut parts, "title=", &meta.title);
    assert(strings_view(parts@) =~= part("build="@, meta.created) + part("version="@, meta.version) + part("rev="@, meta.revision) + id_part(meta.id)
            + part("tag="@, meta.tag) + part("digest="@, meta.digest) + part("title="@, meta.title));
    join_strings(&parts, " ")
}

/// The agents listed by `images`, in display order.
pub open spec fn image_agents() -> Seq<Seq<char>> {
    seq!["codex"@, "crush"@, "aider"@, "openhands"@, "opencode"@, "plandex"@]
}

/// Effective image references for every agent, in a fixed order; `default_image_for`
/// computes the image of one agent.
pub fn images_effective<F: Fn(&str) -> String>(default_image_for: F) -> (out: Vec<(String, String)>)
    requires
        forall|a: &str| default_image_for.requires((a,)),
    ensures
        out@.len() == 6,
        forall|i: int| 0 <= i < 6 ==> (#[trigger] out@[i]).0@ == image_agents()[i],
        default_image_for.ensures(("codex",), out@[0].1),
        default_image_for.ensures(("crush",), out@[1].1),
        default_image_for.ensures(("aider",), out@[2].1),
        default_image_for.ensures(("openhands",), out@[3].1),
        default_image_for.ensures(("opencode",), out@[4].1),
        default_image_for.ensures(("plandex",), out@[5].1),
{
    let mut out: Vec<(String, String)> = Vec::new();
    out.push(("codex".to_owned(), default_image_for("codex")));
    out.push(("crush".to_owned(), default_image_for("crush")));
    out.push(("aider".to_owned(), default_image_for("aider")));
    out.push(("openhands".to_owned(), default_image_for("openhands")));
    out.push(("opencode".to_owned(), default_image_for("opencode")));
    out.push(("plandex".to_owned(), default_image_for("plandex")));
    out
}

/// What `docker image inspect` reports of an image (the last entry of its list).
pub struct InspectFacts {
    pub created: Option<String>,
    pub id: Option<String>,
    /// `ContainerConfig.Labels`.
    pub container_labels: Vec<(String, String)>,
    /// `Config.Labels`.
    pub config_labels: Vec<(String, String)>,
    pub repo_digests: Option<Vec<String>>,
    pub repo_tags: Option<Vec<String>>,
}

/// The value of a label (the first entry with that key).
pub open spec fn label_value(labels: Seq<(String, String)>, key: Seq<char>) -> Option<Seq<char>>
    decreases labels.len(),
{
    if labels.len() == 0 {
        None
    } else if labels[0].0@ == key {
        Some(labels[0].1@)
    } else {
        label_value(labels.drop_first(), key)
    }
}

/// Every leading `sha256:` removed (`trim_start_matches`).
pub open spec fn strip_sha(s: Seq<char>) -> Seq<char>
    decreases s.len(),
{
    if crate::text::starts_with_spec(s, "sha256:"@) && "sha256:"@.len() > 0 {
        strip_sha(s.skip("sha256:"@.len() as int))
    } else {
        s
    }
}

/// The first entry of an optional list, trimmed.
pub open spec fn first_trimmed(v: Option<Vec<String>>) -> Option<Seq<char>> {
    match v {
        Some(l) => if l@.len() > 0 {
            Some(crate::text::trim_spec(l@[0]@))
        } else {
            None
        },
        None => None,
    }
}

/// Metadata of an inspected image: the labels of the container config when it has
/// any, else those of the config; the id without its `sha256:` prefix; the first
/// repository digest and tag, trimmed; version, revision and title from the OCI labels.
pub open spec fn metadata_spec(f: InspectFacts) -> (Option<Seq<char>>, Option<Seq<char>>, Option<Seq<char>>, Option<Seq<char>>, Option<Seq<char>>, Option<Seq<char>>, Option<Seq<char>>) {
    let labels = if f.container_labels@.len() > 0 {
        f.container_labels@
    } else {
        f.config_labels@
    };
    (
        crate::proxy::opt_string_view(f.created),
        match f.id {
            Some(i) => Some(strip_sha(i@)),
            None => None,
        },
        first_trimmed(f.repo_digests),
        first_trimmed(f.repo_tags),
        label_value(labels, "org.opencontainers.image.title"@),
        label_value(labels, "org.opencontainers.image.version"@),
        label_value(labels, "org.opencontainers.image.revision"@),
    )
}

fn label_lookup(labels: &Vec<(String, String)>, key: &str) -> (r: Option<String>)
    ensures
        crate::proxy::opt_string_view(r) == label_value(labels@, key@),
{
    let mut i: usize = 0;
    assert(labels@.skip(0) =~= labels@);
    while i < labels.len()
        invariant
            i <= labels@.len(),
            label_value(labels@, key@) == label_value(labels@.skip(i as int), key@),
        decreases labels@.len() - i,
    {
        assert(labels@.skip(i as int)[0] == labels@[i as int]);
        assert(labels@.skip(i as int).drop_first() =~= labels@.skip(i + 1));
        if crate::text::str_eq(labels[i].0.as_str(), key) {
            return Some(labels[i].1.clone());
        }
        i = i + 1;
    }
    assert(labels@.skip(i as int) =~= Seq::<(String, String)>::empty());
    None
}

fn strip_sha_exec(s: &str) -> (out: String)
    ensures
        out@ == strip_sha(s@),
{
    let cs = str_chars(s);
    let pre = str_chars("sha256:");
    proof {
        reveal_strlit("sha256:");
    }
    let n = cs.len();
    let mut k: usize = 0;
    assert(cs@.skip(0) =~= cs@);
    while crate::text::match_at_exec(cs.as_slice(), pre.as_slice(), k)
        invariant
            k <= n,
            n == cs@.len(),
            pre@ == "sha256:"@,
            pre@.len() == 7,
            strip_sha(cs@) == strip_sha(cs@.skip(k as int)),
        decreases n - k,
    {
        assert(cs@.skip(k as int).subrange(0, 7) =~= cs@.subrange(k as int, k + 7));
        assert(cs@.skip(k as int).skip(7) =~= cs@.skip(k + 7));
        assert(k + 7 <= n);
        k = k + 7;
    }
    proof {
        if cs@.skip(k as int).len() >= 7 {
            assert(cs@.skip(k as int).subrange(0, 7) =~= cs@.subrange(k as int, k + 7));
        }
    }
    let v = crate::text::slice_to_vec(cs.as_slice(), k, n);
    assert(v@ =~= cs@.skip(k as int));
    crate::text::string_from_chars(v.as_slice())
}

fn first_trimmed_exec(v: &Option<Vec<String>>) -> (r: Option<String>)
    ensures
        crate::proxy::opt_string_view(r) == first_trimmed(*v),
{
    match v {
        Some(l) => {
            if l.len() > 0 {
                let cs = str_chars(l[0].as_str());
                let t = crate::text::trim(cs.as_slice());
                Some(crate::text::string_from_chars(t.as_slice()))
            } else {
                None
            }
        },
        None => None,
    }
}

/// The metadata of an inspected image (see `metadata_spec`).
pub fn image_metadata(f: &InspectFacts) -> (m: ImageMetadata)
    ensures
        (
            crate::proxy::opt_string_view(m.created),
            crate::proxy::opt_string_view(m.id),
            crate::proxy::opt_string_view(m.digest),
            crate::proxy::opt_string_view(m.tag),
            crate::proxy::opt_string_view(m.title),
            crate::proxy::opt_string_view(m.version),
            crate::proxy::opt_string_view(m.revision),
        ) == metadata_spec(*f),
{
    let labels = if f.container_labels.len() > 0 {
        &f.container_labels
    } else {
        &f.config_labels
    };
    let created = match &f.created {
        Some(c) => Some(c.clone()),
        None => None,
    };
    let id = match &f.id {
        Some(i) => Some(strip_sha_exec(i.as_str())),
        None => None,
    };
    ImageMetadata {
        created,
        id,
        digest: first_trimmed_exec(&f.repo_digests),
        tag: first_trimmed_exec(&f.repo_tags),
        title: label_lookup(labels, "org.opencontainers.image.title"),
        version: label_lookup(labels, "org.opencontainers.image.version"),
        revision: label_lookup(labels, "org.opencontainers.image.revision"),
    }
}

} // verus!

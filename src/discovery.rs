//! Stream discovery: from a room page and the master playlist it points to, the
//! media playlist of the variant closest to a target quality.

use vstd::prelude::*;
use crate::error::Error;
use crate::escape::{decode_unicode_escapes, unescape};
use crate::text::{chars_of, contains, contains_exec, occurs_at, occurs_at_exec, starts_with, starts_with_exec, string_of};

verus! {

/// The negotiated variant of one room's stream.
#[derive(Debug, Clone)]
pub struct StreamInfo {
    /// Absolute URL of the media playlist.
    pub hls_source: String,
    pub room: String,
    pub resolution: u32,
    pub framerate: u32,
}

/// The absolute URL that `reference` denotes against `base`, as the `url`
/// crate joins them; none where `base` is no URL or the join fails.
pub uninterp spec fn url_joined(base: Seq<char>, reference: Seq<char>) -> Option<Seq<char>>;

/// Relies on `url::Url::parse` of `base`, then `Url::join` of `reference`,
/// written back with `to_string`; on failure, the error's message.
#[verifier::external_body]
fn join_url(base: &str, reference: &str) -> (r: Result<String, String>)
    ensures
        match r {
            Ok(u) => url_joined(base@, reference@) == Some(u@),
            Err(_) => url_joined(base@, reference@) is None,
        },
{
    let b = match url::Url::parse(base) {
        Ok(b) => b,
        Err(e) => return Err(e.to_string()),
    };
    match b.join(reference) {
        Ok(u) => Ok(u.to_string()),
        Err(e) => Err(e.to_string()),
    }
}

/// Whether `path` is already an absolute http(s) URL.
pub open spec fn is_absolute_http(path: Seq<char>) -> bool {
    starts_with(path, "http://"@) || starts_with(path, "https://"@)
}

/// `path` resolved against `base`: itself when it is an absolute http(s) URL,
/// else joined to `base`.
pub open spec fn resolved_url(base: Seq<char>, path: Seq<char>) -> Option<Seq<char>> {
    if is_absolute_http(path) {
        Some(path)
    } else {
        url_joined(base, path)
    }
}

/// Resolves a playlist entry against the URL of the playlist that lists it.
pub fn resolve_url(base: &str, path: &str) -> (r: Result<String, Error>)
    ensures
        match resolved_url(base@, path@) {
            Some(u) => r matches Ok(s) && s@ == u,
            None => r matches Err(Error::UrlParse(_)),
        },
{
    let p = chars_of(path);
    let http = chars_of("http://");
    let https = chars_of("https://");
    if starts_with_exec(&p, &http) || starts_with_exec(&p, &https) {
        return Ok(path.to_owned());
    }
    match join_url(base, path) {
        Ok(u) => Ok(u),
        Err(msg) => Err(Error::UrlParse(msg)),
    }
}

/// Resolves a segment URI against its media playlist's URL.
pub fn resolve_segment_url(playlist_url: &str, segment_uri: &str) -> (r: Result<String, Error>)
    ensures
        match resolved_url(playlist_url@, segment_uri@) {
            Some(u) => r matches Ok(s) && s@ == u,
            None => r matches Err(Error::UrlParse(_)),
        },
{
    resolve_url(playlist_url, segment_uri)
}

/// What selection looks at in a variant.
#[derive(Debug, Clone, Copy, PartialEq, Eq, Structural)]
pub struct VariantQuality {
    /// Declared height in lines.
    pub resolution: u32,
    pub framerate: u32,
    pub bandwidth: u64,
}

/// Whether `a` ranks strictly before `b`: higher resolution, then higher
/// framerate, then higher bandwidth.
pub open spec fn ranks_above(a: VariantQuality, b: VariantQuality) -> bool {
    a.resolution > b.resolution || (a.resolution == b.resolution && (a.framerate > b.framerate
        || (a.framerate == b.framerate && a.bandwidth > b.bandwidth)))
}

/// Whether `v` is eligible in selection tier `tier`: 0 asks for an exact match
/// of both targets, 1 for neither value above its target, 2 for nothing.
pub open spec fn eligible(v: VariantQuality, resolution: u32, framerate: u32, tier: nat) -> bool {
    if tier == 0 {
        v.resolution == resolution && v.framerate == framerate
    } else if tier == 1 {
        v.resolution <= resolution && v.framerate <= framerate
    } else {
        true
    }
}

/// Whether `i` is the best-ranked eligible variant of `vs`, the earliest of
/// equally ranked ones (the one a stable sort by rank puts first).
pub open spec fn best_in_tier(vs: Seq<VariantQuality>, resolution: u32, framerate: u32, tier: nat, i: int) -> bool {
    &&& 0 <= i < vs.len()
    &&& eligible(vs[i], resolution, framerate, tier)
    &&& forall|j: int| 0 <= j < vs.len() && #[trigger] eligible(vs[j], resolution, framerate, tier)
        ==> !ranks_above(vs[j], vs[i]) && (j < i ==> ranks_above(vs[i], vs[j]))
}

/// Whether some variant of `vs` is eligible in tier `tier`.
pub open spec fn tier_has(vs: Seq<VariantQuality>, resolution: u32, framerate: u32, tier: nat) -> bool {
    exists|j: int| 0 <= j < vs.len() && #[trigger] eligible(vs[j], resolution, framerate, tier)
}

/// The tier that selection settles in: the first one with an eligible variant.
pub open spec fn selection_tier(vs: Seq<VariantQuality>, resolution: u32, framerate: u32) -> nat {
    if tier_has(vs, resolution, framerate, 0) {
        0
    } else if tier_has(vs, resolution, framerate, 1) {
        1
    } else {
        2
    }
}

/// Whether `i` is the variant that selection picks for the targets.
pub open spec fn is_selected(vs: Seq<VariantQuality>, resolution: u32, framerate: u32, i: int) -> bool {
    best_in_tier(vs, resolution, framerate, selection_tier(vs, resolution, framerate), i)
}

/// Selection never settles for less than it can have: an exact match of both
/// targets is taken whenever one is listed; otherwise a variant within both
/// targets whenever one is listed; and when no variant is within the targets,
/// the variant taken ranks at least as high as every listed one.
pub proof fn lemma_selection_order(vs: Seq<VariantQuality>, resolution: u32, framerate: u32, i: int)
    requires
        is_selected(vs, resolution, framerate, i),
    ensures
        tier_has(vs, resolution, framerate, 0) ==> vs[i].resolution == resolution && vs[i].framerate
            == framerate,
        !tier_has(vs, resolution, framerate, 0) && tier_has(vs, resolution, framerate, 1)
            ==> vs[i].resolution <= resolution && vs[i].framerate <= framerate,
        !tier_has(vs, resolution, framerate, 1) ==> forall|j: int|
            0 <= j < vs.len() ==> !ranks_above(#[trigger] vs[j], vs[i]),
{
    if !tier_has(vs, resolution, framerate, 1) {
        if tier_has(vs, resolution, framerate, 0) {
            let j = choose|j: int| 0 <= j < vs.len() && #[trigger] eligible(vs[j], resolution, framerate, 0);
            assert(eligible(vs[j], resolution, framerate, 1));
        }
        assert forall|j: int| 0 <= j < vs.len() implies !ranks_above(#[trigger] vs[j], vs[i]) by {
            assert(eligible(vs[j], resolution, framerate, 2));
        }
    }
}

/// The best-ranked eligible variant of tier `tier`, if there is one.
fn best_of_tier(vs: &Vec<VariantQuality>, resolution: u32, framerate: u32, tier: u8) -> (r: Option<usize>)
    requires
        tier <= 2,
    ensures
        match r {
            Some(i) => best_in_tier(vs@, resolution, framerate, tier as nat, i as int),
            None => !tier_has(vs@, resolution, framerate, tier as nat),
        },
{
    let mut best: Option<usize> = None;
    let mut k: usize = 0;
    while k < vs.len()
        invariant
            k <= vs@.len(),
            tier <= 2,
            match best {
                Some(b) => b < k && best_in_tier(vs@.subrange(0, k as int), resolution, framerate, tier as nat, b as int),
                None => forall|j: int| 0 <= j < k ==> !eligible(#[trigger] vs@[j], resolution, framerate, tier as nat),
            },
        decreases vs@.len() - k,
    {
        let v = vs[k];
        let ok = if tier == 0 {
            v.resolution == resolution && v.framerate == framerate
        } else if tier == 1 {
            v.resolution <= resolution && v.framerate <= framerate
        } else {
            true
        };
        let ghost pre = vs@.subrange(0, k as int);
        let ghost post = vs@.subrange(0, k + 1);
        proof {
            assert forall|j: int| 0 <= j < k implies post[j] == pre[j] && pre[j] == vs@[j] by {}
            assert(post[k as int] == v);
        }
        if ok {
            match best {
                None => {
                    best = Some(k);
                },
                Some(b) => {
                    let w = vs[b];
                    let above = v.resolution > w.resolution || (v.resolution == w.resolution && (
                    v.framerate > w.framerate || (v.framerate == w.framerate && v.bandwidth
                        > w.bandwidth)));
                    if above {
                        best = Some(k);
                    }
                },
            }
        }
        k = k + 1;
    }
    proof {
        assert(vs@.subrange(0, k as int) == vs@);
    }
    best
}

/// Picks a variant for the target resolution and framerate. Variants rank by
/// resolution, then framerate, then bandwidth, all descending. An exact match
/// of both targets wins; else the best-ranked variant with neither value above
/// its target; else the best-ranked variant of all. Among equally ranked
/// variants the earliest listed is taken.
pub fn select_variant(variants: &Vec<VariantQuality>, target_resolution: u32, target_framerate: u32) -> (r: usize)
    requires
        variants@.len() > 0,
    ensures
        is_selected(variants@, target_resolution, target_framerate, r as int),
{
    match best_of_tier(variants, target_resolution, target_framerate, 0) {
        Some(i) => i,
        None => match best_of_tier(variants, target_resolution, target_framerate, 1) {
            Some(i) => i,
            None => {
                let r = best_of_tier(variants, target_resolution, target_framerate, 2);
                proof {
                    assert(eligible(variants@[0], target_resolution, target_framerate, 2));
                }
                match r {
                    Some(i) => i,
                    None => 0,
                }
            },
        },
    }
}

/// A white-space character in the sense of Unicode's `White_Space` property.
pub open spec fn is_white_space(c: char) -> bool {
    ('\u{9}' <= c && c <= '\u{D}') || c == ' ' || c == '\u{85}' || c == '\u{A0}' || c == '\u{1680}'
        || ('\u{2000}' <= c && c <= '\u{200A}') || c == '\u{2028}' || c == '\u{2029}'
        || c == '\u{202F}' || c == '\u{205F}' || c == '\u{3000}'
}

fn is_white_space_exec(c: char) -> (r: bool)
    ensures
        r == is_white_space(c),
{
    ('\u{9}' <= c && c <= '\u{D}') || c == ' ' || c == '\u{85}' || c == '\u{A0}' || c == '\u{1680}'
        || ('\u{2000}' <= c && c <= '\u{200A}') || c == '\u{2028}' || c == '\u{2029}'
        || c == '\u{202F}' || c == '\u{205F}' || c == '\u{3000}'
}

/// First position at or after `j` that is not white space (the length if none).
pub open spec fn skip_spaces(s: Seq<char>, j: int) -> int
    decreases s.len() - j,
{
    if 0 <= j < s.len() && is_white_space(s[j]) {
        skip_spaces(s, j + 1)
    } else {
        j
    }
}

/// First position at or after `j` that holds a double quote (the length if none).
pub open spec fn next_quote(s: Seq<char>, j: int) -> int
    decreases s.len() - j,
{
    if j < 0 || j >= s.len() {
        s.len() as int
    } else if s[j] == '"' {
        j
    } else {
        next_quote(s, j + 1)
    }
}

/// The assignment that a room page embeds its data in, as it starts.
pub open spec fn dossier_marker() -> Seq<char> {
    "window.initialRoomDossier"@
}

/// The string literal assigned at position `i`, if the page holds there the
/// marker, optional white space, `=`, optional white space and a double quote:
/// the characters after that quote up to the next double quote that is not
/// the first of them, none of them a line feed.
pub open spec fn dossier_at(s: Seq<char>, i: int) -> Option<Seq<char>> {
    if !occurs_at(s, dossier_marker(), i) {
        None
    } else {
        let j1 = skip_spaces(s, i + dossier_marker().len());
        if j1 >= s.len() || s[j1] != '=' {
            None
        } else {
            let j2 = skip_spaces(s, j1 + 1);
            if j2 >= s.len() || s[j2] != '"' {
                None
            } else {
                let c = j2 + 1;
                let k = next_quote(s, c + 1);
                if k >= s.len() || exists|m: int| c <= m < k && #[trigger] s[m] == '\n' {
                    None
                } else {
                    Some(s.subrange(c, k))
                }
            }
        }
    }
}

/// The first embedded literal at or after position `i`.
pub open spec fn dossier_from(s: Seq<char>, i: int) -> Option<Seq<char>>
    decreases s.len() + 1 - i,
{
    if i < 0 || i > s.len() {
        None
    } else {
        match dossier_at(s, i) {
            Some(d) => Some(d),
            None => dossier_from(s, i + 1),
        }
    }
}

fn skip_spaces_exec(cs: &Vec<char>, j: usize) -> (r: usize)
    requires
        j <= cs@.len(),
    ensures
        r as int == skip_spaces(cs@, j as int),
        r <= cs@.len(),
{
    let mut k = j;
    while k < cs.len() && is_white_space_exec(cs[k])
        invariant
            j <= k <= cs@.len(),
            skip_spaces(cs@, k as int) == skip_spaces(cs@, j as int),
        decreases cs@.len() - k,
    {
        k = k + 1;
    }
    k
}

fn next_quote_exec(cs: &Vec<char>, j: usize) -> (r: usize)
    requires
        j <= cs@.len(),
    ensures
        r as int == next_quote(cs@, j as int),
        j <= r <= cs@.len(),
        forall|m: int| j <= m < r ==> cs@[m] != '"',
{
    let mut k = j;
    while k < cs.len() && cs[k] != '"'
        invariant
            j <= k <= cs@.len(),
            next_quote(cs@, k as int) == next_quote(cs@, j as int),
            forall|m: int| j <= m < k ==> cs@[m] != '"',
        decreases cs@.len() - k,
    {
        k = k + 1;
    }
    k
}

fn dossier_at_exec(cs: &Vec<char>, marker: &Vec<char>, i: usize) -> (r: Option<(usize, usize)>)
    requires
        marker@ == dossier_marker(),
        i <= cs@.len(),
    ensures
        match r {
            Some((c, k)) => c <= k <= cs@.len() && dossier_at(cs@, i as int) == Some(
                cs@.subrange(c as int, k as int),
            ),
            None => dossier_at(cs@, i as int) is None,
        },
{
    if !occurs_at_exec(cs, marker, i) {
        return None;
    }
    let ml = marker.len();
    let n = cs.len();
    assert(i + ml <= n);
    let j1 = skip_spaces_exec(cs, i + ml);
    if j1 >= cs.len() || cs[j1] != '=' {
        return None;
    }
    let j2 = skip_spaces_exec(cs, j1 + 1);
    if j2 >= cs.len() || cs[j2] != '"' {
        return None;
    }
    let c = j2 + 1;
    if c >= cs.len() {
        return None;
    }
    let k = next_quote_exec(cs, c + 1);
    if k >= cs.len() {
        return None;
    }
    let mut m = c;
    assert(dossier_at(cs@, i as int) == if exists|x: int| c <= x < k && #[trigger] cs@[x] == '\n' {
        None
    } else {
        Some(cs@.subrange(c as int, k as int))
    });
    while m < k
        invariant
            c <= m <= k,
            k < cs@.len(),
            dossier_at(cs@, i as int) == if exists|x: int| c <= x < k && #[trigger] cs@[x] == '\n' {
                None
            } else {
                Some(cs@.subrange(c as int, k as int))
            },
            forall|x: int| c <= x < m ==> cs@[x] != '\n',
        decreases k - m,
    {
        if cs[m] == '\n' {
            assert(cs@[m as int] == '\n');
            return None;
        }
        m = m + 1;
    }
    Some((c, k))
}

/// The literal that a room page assigns to its embedded data: the first place
/// where the pattern of `dossier_at` is met.
pub fn extract_dossier(html: &str) -> (r: Option<String>)
    ensures
        match r {
            Some(d) => dossier_from(html@, 0) == Some(d@),
            None => dossier_from(html@, 0) is None,
        },
{
    let cs = chars_of(html);
    let marker = chars_of("window.initialRoomDossier");
    let mut i: usize = 0;
    loop
        invariant
            i <= cs@.len(),
            cs@ == html@,
            marker@ == dossier_marker(),
            dossier_from(cs@, i as int) == dossier_from(cs@, 0),
        decreases cs@.len() + 1 - i,
    {
        match dossier_at_exec(&cs, &marker, i) {
            Some((c, k)) => {
                let mut out: Vec<char> = Vec::new();
                let mut m = c;
                while m < k
                    invariant
                        c <= m <= k <= cs@.len(),
                        out@ == cs@.subrange(c as int, m as int),
                    decreases k - m,
                {
                    out.push(cs[m]);
                    proof {
                        assert(out@ == cs@.subrange(c as int, m + 1));
                    }
                    m = m + 1;
                }
                return Some(string_of(&out));
            },
            None => {},
        }
        if i == cs.len() {
            assert(dossier_from(cs@, i + 1) is None);
            return None;
        }
        i = i + 1;
    }
}

/// What the master playlist says of one variant stream.
#[derive(Debug, Clone)]
pub struct PlaylistVariant {
    pub uri: String,
    /// Declared height of the picture, when a resolution is declared.
    pub height: Option<u64>,
    /// The `NAME` attribute, as written in the playlist.
    pub name: Option<String>,
    pub bandwidth: u64,
}

/// A listed variant as plain values: URI, declared height, name, bandwidth.
pub type VariantView = (Seq<char>, Option<u64>, Option<Seq<char>>, u64);

impl View for PlaylistVariant {
    type V = VariantView;

    open spec fn view(&self) -> VariantView {
        (
            self.uri@,
            self.height,
            match self.name {
                Some(n) => Some(n@),
                None => None,
            },
            self.bandwidth,
        )
    }
}

/// The variant streams that `m3u8_rs` reads from a master playlist, in
/// order; none where it does not parse as one.
pub uninterp spec fn master_playlist_variants(text: Seq<char>) -> Option<Seq<VariantView>>;

/// Relies on `m3u8_rs::parse_master_playlist_res`: its variant streams, each
/// with its URI, declared height, `NAME` attribute (through its `Display`)
/// and bandwidth; on failure, the parser's error in debug form.
#[verifier::external_body]
fn parse_master_playlist(text: &str) -> (r: Result<Vec<PlaylistVariant>, String>)
    ensures
        match r {
            Ok(vs) => master_playlist_variants(text@) == Some(vs@.map_values(|v: PlaylistVariant| v@)),
            Err(_) => master_playlist_variants(text@) is None,
        },
{
    match m3u8_rs::parse_master_playlist_res(text.as_bytes()) {
        Ok(pl) => Ok(pl.variants.iter().map(|v| PlaylistVariant {
            uri: v.uri.clone(),
            height: v.resolution.map(|r| r.height),
            name: v.other_attributes.as_ref().and_then(|a| a.get("NAME")).map(|n| n.to_string()),
            bandwidth: v.bandwidth,
        }).collect()),
        Err(e) => Err(format!("{:?}", e)),
    }
}

/// Framerate that a variant's name signals: 60 where it holds `FPS:60`, else 30.
pub open spec fn framerate_of(name: Option<Seq<char>>) -> u32 {
    match name {
        Some(n) => if contains(n, "FPS:60"@) { 60 } else { 30 },
        None => 30,
    }
}

/// What selection looks at in a listed variant; a missing resolution counts as 0.
pub open spec fn quality_of(v: VariantView) -> VariantQuality {
    VariantQuality {
        resolution: match v.1 {
            Some(h) => h as u32,
            None => 0,
        },
        framerate: framerate_of(v.2),
        bandwidth: v.3,
    }
}

pub open spec fn qualities(vs: Seq<VariantView>) -> Seq<VariantQuality> {
    vs.map_values(|v: VariantView| quality_of(v))
}

/// The framerate of a variant from its name.
pub fn variant_framerate(name: &Option<String>) -> (r: u32)
    ensures
        r == framerate_of(
            match *name {
                Some(n) => Some(n@),
                None => None,
            },
        ),
{
    match name {
        Some(n) => {
            let cs = chars_of(n.as_str());
            let fps = chars_of("FPS:60");
            if contains_exec(&cs, &fps) {
                60
            } else {
                30
            }
        },
        None => 30,
    }
}

/// The stream that a room's master playlist offers closest to the target:
/// the selected variant (see `select_variant`), its URI resolved against the
/// master playlist's URL. Fails when the playlist does not parse or lists no
/// variant, or when the chosen URI does not resolve.
pub fn select_stream(
    room: &str,
    master_url: &str,
    master_text: &str,
    target_resolution: u32,
    target_framerate: u32,
) -> (r: Result<StreamInfo, Error>)
    ensures
        match master_playlist_variants(master_text@) {
            None => r matches Err(Error::M3u8(_)),
            Some(vs) => if vs.len() == 0 {
                r matches Err(Error::M3u8(_))
            } else {
                exists|i: int|
                    #![trigger is_selected(qualities(vs), target_resolution, target_framerate, i)]
                    is_selected(qualities(vs), target_resolution, target_framerate, i) && match resolved_url(
                        master_url@,
                        vs[i].0,
                    ) {
                        Some(u) => r matches Ok(info) && info.hls_source@ == u && info.room@ == room@
                            && info.resolution == qualities(vs)[i].resolution && info.framerate
                            == qualities(vs)[i].framerate,
                        None => r matches Err(Error::UrlParse(_)),
                    }
            },
        },
{
    let variants = match parse_master_playlist(master_text) {
        Ok(vs) => vs,
        Err(e) => return Err(Error::M3u8(e)),
    };
    if variants.len() == 0 {
        return Err(Error::M3u8("no variants in master playlist".to_owned()));
    }
    let mut qs: Vec<VariantQuality> = Vec::new();
    let mut k: usize = 0;
    while k < variants.len()
        invariant
            k <= variants@.len(),
            qs@ == qualities(variants@.map_values(|v: PlaylistVariant| v@)).subrange(0, k as int),
        decreases variants@.len() - k,
    {
        let v = &variants[k];
        let resolution: u32 = match v.height {
            Some(h) => h as u32,
            None => 0,
        };
        let q = VariantQuality { resolution, framerate: variant_framerate(&v.name), bandwidth: v.bandwidth };
        qs.push(q);
        proof {
            assert(qs@ == qualities(variants@.map_values(|v: PlaylistVariant| v@)).subrange(0, k + 1));
        }
        k = k + 1;
    }
    proof {
        assert(qs@ == qualities(variants@.map_values(|v: PlaylistVariant| v@)));
    }
    let i = select_variant(&qs, target_resolution, target_framerate);
    let q = qs[i];
    match resolve_url(master_url, variants[i].uri.as_str()) {
        Ok(u) => Ok(StreamInfo {
            hls_source: u,
            room: room.to_owned(),
            resolution: q.resolution,
            framerate: q.framerate,
        }),
        Err(e) => Err(e),
    }
}

/// The string value of field `key` in the JSON document `json`, as
/// `serde_json` reads it: none where the document does not parse; an empty
/// inner value where it is no object, or the field is missing or no string.
pub uninterp spec fn json_string_field(json: Seq<char>, key: Seq<char>) -> Option<Option<Seq<char>>>;

/// Relies on `serde_json::from_str` into a `serde_json::Value`, then
/// `Value::get` and `Value::as_str`; on failure, the error's message.
#[verifier::external_body]
fn read_json_string_field(json: &str, key: &str) -> (r: Result<Option<String>, String>)
    ensures
        match r {
            Ok(Some(v)) => json_string_field(json@, key@) == Some(Some(v@)),
            Ok(None) => json_string_field(json@, key@) == Some(None::<Seq<char>>),
            Err(_) => json_string_field(json@, key@) is None,
        },
{
    match serde_json::from_str::<serde_json::Value>(json) {
        Ok(v) => match v.get(key) {
            Some(f) => match f.as_str() {
                Some(t) => Ok(Some(t.to_owned())),
                None => Ok(None),
            },
            None => Ok(None),
        },
        Err(e) => Err(e.to_string()),
    }
}

/// Whether a room page shows a live stream: it mentions a playlist.
pub open spec fn page_is_live(html: Seq<char>) -> bool {
    contains(html, "playlist.m3u8"@)
}

/// The master playlist URL that a room page leads to. A page that mentions no
/// playlist, or whose data has no or an empty `hls_source`, means the
/// broadcaster is offline; a page without the embedded data means no stream
/// was found; data that is no JSON after unescaping is a JSON error.
pub fn master_playlist_url(room: &str, html: &str) -> (r: Result<String, Error>)
    ensures
        !page_is_live(html@) ==> (r matches Err(Error::BroadcasterOffline(n)) && n@ == room@),
        page_is_live(html@) ==> match dossier_from(html@, 0) {
            None => r matches Err(Error::StreamNotFound(n)) && n@ == room@,
            Some(d) => match json_string_field(unescape(d), "hls_source"@) {
                None => r matches Err(Error::Json(_)),
                Some(field) => match field {
                    Some(u) => if u.len() > 0 {
                        r matches Ok(s) && s@ == u
                    } else {
                        r matches Err(Error::BroadcasterOffline(n)) && n@ == room@
                    },
                    None => r matches Err(Error::BroadcasterOffline(n)) && n@ == room@,
                },
            },
        },
{
    let page = chars_of(html);
    let marker = chars_of("playlist.m3u8");
    if !contains_exec(&page, &marker) {
        return Err(Error::BroadcasterOffline(room.to_owned()));
    }
    let encoded = match extract_dossier(html) {
        Some(d) => d,
        None => return Err(Error::StreamNotFound(room.to_owned())),
    };
    let decoded = match decode_unicode_escapes(encoded.as_str()) {
        Ok(j) => j,
        Err(e) => return Err(e),
    };
    match read_json_string_field(decoded.as_str(), "hls_source") {
        Ok(Some(u)) => {
            if u.as_str().is_empty() {
                Err(Error::BroadcasterOffline(room.to_owned()))
            } else {
                Ok(u)
            }
        },
        Ok(None) => Err(Error::BroadcasterOffline(room.to_owned())),
        Err(msg) => Err(Error::Json(msg)),
    }
}

} // verus!

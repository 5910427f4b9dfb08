use vstd::prelude::*;

use crate::arguments::FormatOptions;

verus! {

/// A file attached to a release.
#[derive(Clone, Debug, PartialEq, Eq)]
pub struct ReleaseAsset {
    pub name: String,
    pub browser_download_url: String,
}

/// What the generator shows of a GitHub release.
#[derive(Clone, Debug, PartialEq, Eq)]
pub struct ReleaseInfo {
    pub tag_name: String,
    /// The changelog, when the release has one.
    pub body: Option<String>,
    pub assets: Vec<ReleaseAsset>,
}

/// `parts` with `sep` between each two neighbours.
pub open spec fn join(parts: Seq<Seq<char>>, sep: Seq<char>) -> Seq<char>
    decreases parts.len(),
{
    if parts.len() == 0 {
        Seq::empty()
    } else if parts.len() == 1 {
        parts[0]
    } else {
        join(parts.drop_last(), sep) + sep + parts.last()
    }
}

/// The models of a list of strings.
pub open spec fn lines_model(lines: Seq<String>) -> Seq<Seq<char>> {
    lines.map_values(|s: String| s@)
}

/// The line that names an asset and its download link.
pub open spec fn asset_line(asset: ReleaseAsset) -> Seq<char> {
    asset.name@ + ": "@ + asset.browser_download_url@
}

/// The download line of each asset.
pub open spec fn asset_lines(assets: Seq<ReleaseAsset>) -> Seq<Seq<char>> {
    assets.map_values(|a: ReleaseAsset| asset_line(a))
}

/// The download lines of all assets, one per line.
pub open spec fn assets_text(assets: Seq<ReleaseAsset>) -> Seq<char> {
    join(asset_lines(assets), "\n"@)
}

/// The changelog, or a note that the release has none.
pub open spec fn changelog_text(body: Option<String>) -> Seq<char> {
    match body {
        Some(b) => b@,
        None => "No changelog provided"@,
    }
}

/// The plain-text description of a release: its version, its changelog and
/// its download links.
pub open spec fn release_text(release: ReleaseInfo) -> Seq<char> {
    "Version: "@ + release.tag_name@ + "\nChangelog:\n"@ + changelog_text(release.body)
        + "\nDownload URLs:\n"@ + assets_text(release.assets@)
}

/// The plain-text description of a list of releases: each release's
/// description ended by a newline, separated by newlines.
pub open spec fn releases_text(releases: Seq<ReleaseInfo>) -> Seq<char> {
    join(release_parts(releases), "\n"@)
}

/// Each release's description ended by a newline.
pub open spec fn release_parts(releases: Seq<ReleaseInfo>) -> Seq<Seq<char>> {
    releases.map_values(|r: ReleaseInfo| release_text(r) + "\n"@)
}

/// The text shown for serialized release data in a format, or the format's
/// fallback message when serializing failed.
pub open spec fn serialized_or_fallback(style: FormatOptions, serialized: Option<String>) -> Seq<char> {
    match serialized {
        Some(s) => s@,
        None => match style {
            FormatOptions::Yaml => "Error formatting as YAML"@,
            _ => "Error formatting as JSON"@,
        },
    }
}

/// Joins `lines` with `sep` between each two neighbours.
pub fn join_lines(lines: &Vec<String>, sep: &str) -> (res: String)
    ensures
        res@ == join(lines_model(lines@), sep@),
{
    let mut res = String::new();
    let n = lines.len();
    let ghost model = lines_model(lines@);
    for i in 0..n
        invariant
            n == lines@.len(),
            model == lines_model(lines@),
            res@ == join(model.take(i as int), sep@),
    {
        if i != 0 {
            res.append(sep);
        }
        res.append(lines[i].as_str());
        assert(model.take(i + 1).drop_last() =~= model.take(i as int));
        assert(model.take(i + 1).last() == lines@[i as int]@);
        if i == 0 {
            assert(model.take(0) =~= Seq::<Seq<char>>::empty());
            assert(res@ =~= model.take(1)[0]);
        }
    }
    assert(model.take(n as int) =~= model);
    res
}

fn asset_line_of(asset: &ReleaseAsset) -> (res: String)
    ensures
        res@ == asset_line(*asset),
{
    let mut res = asset.name.clone();
    res.append(": ");
    res.append(asset.browser_download_url.as_str());
    res
}

/// The plain-text description of a release: "Version: ", the tag, the
/// changelog (or "No changelog provided") under "Changelog:", and one
/// "name: url" line per asset under "Download URLs:".
pub fn format_release(release: &ReleaseInfo) -> (text: String)
    ensures
        text@ == release_text(*release),
{
    let mut lines: Vec<String> = Vec::new();
    let n = release.assets.len();
    for i in 0..n
        invariant
            n == release.assets@.len(),
            lines@.len() == i,
            lines_model(lines@) == asset_lines(release.assets@.take(i as int)),
    {
        let ghost before = lines@;
        let line = asset_line_of(&release.assets[i]);
        lines.push(line);
        assert forall|j: int| 0 <= j <= i implies #[trigger] lines_model(lines@)[j] == asset_lines(
            release.assets@.take(i + 1),
        )[j] by {
            if j < i {
                assert(lines@[j] == before[j]);
                assert(lines_model(before)[j] == asset_lines(release.assets@.take(i as int))[j]);
            }
        }
        assert(lines_model(lines@) =~= asset_lines(release.assets@.take(i + 1)));
    }
    assert(release.assets@.take(n as int) =~= release.assets@);
    let assets = join_lines(&lines, "\n");

    let mut text = String::from_str("Version: ");
    text.append(release.tag_name.as_str());
    text.append("\nChangelog:\n");
    match &release.body {
        Some(body) => text.append(body.as_str()),
        None => text.append("No changelog provided"),
    }
    text.append("\nDownload URLs:\n");
    text.append(assets.as_str());
    text
}

/// The plain-text description of all `releases`: each release's description
/// followed by a newline, separated by newlines.
pub fn format_releases(releases: &[ReleaseInfo]) -> (text: String)
    ensures
        text@ == releases_text(releases@),
{
    let mut parts: Vec<String> = Vec::new();
    let n = releases.len();
    for i in 0..n
        invariant
            n == releases@.len(),
            parts@.len() == i,
            lines_model(parts@) == release_parts(releases@.take(i as int)),
    {
        let mut part = format_release(&releases[i]);
        part.append("\n");
        let ghost before = parts@;
        parts.push(part);
        assert forall|j: int| 0 <= j <= i implies #[trigger] lines_model(parts@)[j] == release_parts(
            releases@.take(i + 1),
        )[j] by {
            if j < i {
                assert(parts@[j] == before[j]);
                assert(lines_model(before)[j] == release_parts(releases@.take(i as int))[j]);
            }
        }
        assert(lines_model(parts@) =~= release_parts(releases@.take(i + 1)));
    }
    assert(releases@.take(n as int) =~= releases@);
    join_lines(&parts, "\n")
}

fn serialized_text(style: FormatOptions, serialized: Option<String>) -> (text: String)
    ensures
        text@ == serialized_or_fallback(style, serialized),
{
    match serialized {
        Some(s) => s,
        None => match style {
            FormatOptions::Yaml => String::from_str("Error formatting as YAML"),
            _ => String::from_str("Error formatting as JSON"),
        },
    }
}

/// The serializer that release information goes through before it is printed.
#[derive(Clone, Copy, Debug, PartialEq, Eq, Structural)]
pub enum Serialization {
    Json,
    Yaml,
}

/// The serializer a style asks for: JSON for `Json`, YAML for `Yaml`, none
/// for plain text, which the library writes itself.
pub open spec fn serialization_of(style: FormatOptions) -> Option<Serialization> {
    match style {
        FormatOptions::Json => Some(Serialization::Json),
        FormatOptions::Yaml => Some(Serialization::Yaml),
        FormatOptions::PlainText => None,
    }
}

/// Which serializer to run for `style`, whose output `latest_release_output`
/// and `all_releases_output` then take.
pub fn serializer_for(style: FormatOptions) -> (serializer: Option<Serialization>)
    ensures
        serializer == serialization_of(style),
{
    match style {
        FormatOptions::Json => Some(Serialization::Json),
        FormatOptions::Yaml => Some(Serialization::Yaml),
        FormatOptions::PlainText => None,
    }
}

/// What is printed for the latest release in `style`: its plain-text
/// description, or the release serialized as JSON or YAML (`serialized`, the
/// serializer's output, `None` when it failed, in which case a fallback
/// message is printed).
pub fn latest_release_output(style: FormatOptions, release: &ReleaseInfo, serialized: Option<String>) -> (text: String)
    ensures
        style == FormatOptions::PlainText ==> text@ == release_text(*release),
        style != FormatOptions::PlainText ==> text@ == serialized_or_fallback(style, serialized),
{
    match style {
        FormatOptions::PlainText => format_release(release),
        _ => serialized_text(style, serialized),
    }
}

/// What is printed for all releases in `style`: their plain-text
/// descriptions, or the list serialized as JSON or YAML (`serialized`, the
/// serializer's output, `None` when it failed, in which case a fallback
/// message is printed).
pub fn all_releases_output(style: FormatOptions, releases: &[ReleaseInfo], serialized: Option<String>) -> (text: String)
    ensures
        style == FormatOptions::PlainText ==> text@ == releases_text(releases@),
        style != FormatOptions::PlainText ==> text@ == serialized_or_fallback(style, serialized),
{
    match style {
        FormatOptions::PlainText => format_releases(releases),
        _ => serialized_text(style, serialized),
    }
}

/// `part` occurs in `whole` as a contiguous piece.
pub open spec fn occurs_in(part: Seq<char>, whole: Seq<char>) -> bool {
    exists|o: int| 0 <= o && o + part.len() <= whole.len() && #[trigger] whole.subrange(o, o + part.len()) == part
}

proof fn lemma_occurs_in_concat(part: Seq<char>, left: Seq<char>, whole: Seq<char>, right: Seq<char>)
    requires
        occurs_in(part, whole),
    ensures
        occurs_in(part, left + whole + right),
{
    let o = choose|o: int| 0 <= o && o + part.len() <= whole.len() && #[trigger] whole.subrange(o, o + part.len()) == part;
    let all = left + whole + right;
    let p = left.len() + o;
    assert(all.subrange(p, p + part.len()) =~= whole.subrange(o, o + part.len()));
}

proof fn lemma_occurs_in_itself(part: Seq<char>)
    ensures
        occurs_in(part, part),
{
    let z: int = 0;
    assert(part.subrange(z, z + part.len()) =~= part);
}

proof fn lemma_join_contains(parts: Seq<Seq<char>>, sep: Seq<char>, i: int)
    requires
        0 <= i < parts.len(),
    ensures
        occurs_in(parts[i], join(parts, sep)),
    decreases parts.len(),
{
    if parts.len() == 1 {
        lemma_occurs_in_itself(parts[0]);
    } else if i < parts.len() - 1 {
        lemma_join_contains(parts.drop_last(), sep, i);
        assert(parts.drop_last()[i] == parts[i]);
        lemma_occurs_in_concat(parts[i], Seq::empty(), join(parts.drop_last(), sep), sep + parts.last());
        assert(Seq::<char>::empty() + join(parts.drop_last(), sep) + (sep + parts.last()) =~= join(parts, sep));
    } else {
        lemma_occurs_in_itself(parts.last());
        lemma_occurs_in_concat(parts.last(), join(parts.drop_last(), sep) + sep, parts.last(), Seq::empty());
        assert(join(parts.drop_last(), sep) + sep + parts.last() + Seq::<char>::empty() =~= join(parts, sep));
    }
}

/// The plain-text description of a release gives every asset's name and
/// download link.
pub proof fn lemma_release_lists_every_asset(release: ReleaseInfo, i: int)
    requires
        0 <= i < release.assets@.len(),
    ensures
        occurs_in(asset_line(release.assets@[i]), release_text(release)),
{
    let lines = asset_lines(release.assets@);
    lemma_join_contains(lines, "\n"@, i);
    let head = "Version: "@ + release.tag_name@ + "\nChangelog:\n"@ + changelog_text(release.body)
        + "\nDownload URLs:\n"@;
    lemma_occurs_in_concat(lines[i], head, assets_text(release.assets@), Seq::empty());
    assert(head + assets_text(release.assets@) + Seq::<char>::empty() =~= release_text(release));
}

/// The plain-text description of a list of releases holds the description
/// of every release in it.
pub proof fn lemma_all_releases_listed(releases: Seq<ReleaseInfo>, i: int)
    requires
        0 <= i < releases.len(),
    ensures
        occurs_in(release_text(releases[i]), releases_text(releases)),
{
    let parts = release_parts(releases);
    lemma_join_contains(parts, "\n"@, i);
    let text = release_text(releases[i]);
    let o = choose|o: int| 0 <= o && o + parts[i].len() <= releases_text(releases).len()
        && #[trigger] releases_text(releases).subrange(o, o + parts[i].len()) == parts[i];
    assert(releases_text(releases).subrange(o, o + text.len()) =~= text);
}

} // verus!

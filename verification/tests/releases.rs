use toolbox_context_menu::releases::{serializer_for, Serialization};
use toolbox_context_menu::arguments::FormatOptions;
use toolbox_context_menu::releases::{
    all_releases_output, format_release, format_releases, join_lines, latest_release_output,
    ReleaseAsset, ReleaseInfo,
};

fn asset(name: &str, url: &str) -> ReleaseAsset {
    ReleaseAsset { name: name.to_string(), browser_download_url: url.to_string() }
}

fn release(tag: &str, body: Option<&str>, assets: Vec<ReleaseAsset>) -> ReleaseInfo {
    ReleaseInfo { tag_name: tag.to_string(), body: body.map(|b| b.to_string()), assets }
}

fn sample() -> ReleaseInfo {
    release(
        "v1.2.0",
        Some("Fixed things"),
        vec![
            asset("setup.exe", "https://example.com/setup.exe"),
            asset("portable.zip", "https://example.com/portable.zip"),
        ],
    )
}

#[test]
fn join_lines_puts_separator_between_lines() {
    let lines = vec!["a".to_string(), "b".to_string(), "c".to_string()];
    assert_eq!(join_lines(&lines, "\n"), "a\nb\nc");
    assert_eq!(join_lines(&vec!["only".to_string()], ", "), "only");
    assert_eq!(join_lines(&Vec::new(), "\n"), "");
}

#[test]
fn plain_text_of_a_release() {
    assert_eq!(
        format_release(&sample()),
        "Version: v1.2.0\nChangelog:\nFixed things\nDownload URLs:\nsetup.exe: https://example.com/setup.exe\nportable.zip: https://example.com/portable.zip"
    );
}

#[test]
fn release_without_changelog_or_assets() {
    assert_eq!(
        format_release(&release("v0.1", None, vec![])),
        "Version: v0.1\nChangelog:\nNo changelog provided\nDownload URLs:\n"
    );
}

#[test]
fn plain_text_of_all_releases() {
    let releases = vec![sample(), release("v1.0.0", None, vec![asset("a", "u")])];
    assert_eq!(
        format_releases(&releases),
        "Version: v1.2.0\nChangelog:\nFixed things\nDownload URLs:\nsetup.exe: https://example.com/setup.exe\nportable.zip: https://example.com/portable.zip\n\nVersion: v1.0.0\nChangelog:\nNo changelog provided\nDownload URLs:\na: u\n"
    );
    assert_eq!(format_releases(&[]), "");
}

#[test]
fn plain_text_lists_every_asset() {
    let text = format_release(&sample());
    for a in &sample().assets {
        assert!(text.contains(&format!("{}: {}", a.name, a.browser_download_url)));
    }
}

#[test]
fn all_releases_text_holds_each_release() {
    let releases = vec![sample(), release("v0.9", Some("old"), vec![])];
    let text = format_releases(&releases);
    for r in &releases {
        assert!(text.contains(&format_release(r)));
    }
}

#[test]
fn output_in_each_style() {
    let r = sample();
    assert_eq!(latest_release_output(FormatOptions::PlainText, &r, None), format_release(&r));
    assert_eq!(latest_release_output(FormatOptions::Json, &r, Some("{\"tag\":1}".to_string())), "{\"tag\":1}");
    assert_eq!(latest_release_output(FormatOptions::Json, &r, None), "Error formatting as JSON");
    assert_eq!(latest_release_output(FormatOptions::Yaml, &r, Some("tag: 1\n".to_string())), "tag: 1\n");
    assert_eq!(latest_release_output(FormatOptions::Yaml, &r, None), "Error formatting as YAML");
    let rs = vec![r.clone()];
    assert_eq!(all_releases_output(FormatOptions::PlainText, &rs, Some("ignored".to_string())), format_releases(&rs));
    assert_eq!(all_releases_output(FormatOptions::Json, &rs, None), "Error formatting as JSON");
    assert_eq!(all_releases_output(FormatOptions::Yaml, &rs, None), "Error formatting as YAML");
}

#[test]
fn each_style_picks_its_serializer() {
    assert_eq!(serializer_for(FormatOptions::Json), Some(Serialization::Json));
    assert_eq!(serializer_for(FormatOptions::Yaml), Some(Serialization::Yaml));
    assert_eq!(serializer_for(FormatOptions::PlainText), None);
}

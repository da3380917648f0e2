use automerge_bot::dependabot::dependabot_metadata_block;

const MESSAGE: &str = "Bump serde from 1.0.1 to 1.0.2\n\nBumps [serde](https://github.com/serde-rs/serde).\n\n---\nupdated-dependencies:\n- dependency-name: serde\n  dependency-version: 1.0.2\n  dependency-type: direct:production\n  update-type: version-update:semver-patch\n...\n\nSigned-off-by: dependabot[bot] <support@github.com>";

#[test]
fn metadata_block_is_between_markers() {
    let block = dependabot_metadata_block(MESSAGE).unwrap();
    assert_eq!(
        block,
        "\nupdated-dependencies:\n- dependency-name: serde\n  dependency-version: 1.0.2\n  dependency-type: direct:production\n  update-type: version-update:semver-patch\n"
    );
}

#[test]
fn metadata_block_needs_both_markers() {
    assert_eq!(dependabot_metadata_block("no markers"), None);
    assert_eq!(dependabot_metadata_block("only --- start"), None);
    assert_eq!(dependabot_metadata_block("end ... then --- nothing"), None);
}

#[test]
fn metadata_block_uses_first_markers() {
    assert_eq!(dependabot_metadata_block("a---b...c---d...e").as_deref(), Some("b"));
    assert_eq!(dependabot_metadata_block("----x...").as_deref(), Some("-x"));
    assert_eq!(dependabot_metadata_block("---...").as_deref(), Some(""));
    assert_eq!(dependabot_metadata_block("---....").as_deref(), Some(""));
}

#[test]
fn metadata_block_handles_unicode() {
    assert_eq!(dependabot_metadata_block("żółw---ąę...ść").as_deref(), Some("ąę"));
}

use geyser_rs::artifact::candidate_file_names;
use geyser_rs::artifact::latest_object_key;
use geyser_rs::artifact::object_key;
use geyser_rs::artifact::version_in_manifest;
use geyser_rs::artifact::VersionError;

fn by_std(content: &str) -> Result<String, VersionError> {
    for line in content.lines() {
        let line = line.trim();
        if line.starts_with("version") || line.starts_with("package.version") {
            return match line.split_once('=') {
                Some((_, version)) => {
                    Ok(version.trim().trim_matches('"').trim_matches('\'').to_string())
                }
                None => Err(VersionError::Invalid),
            };
        }
    }
    Err(VersionError::NotFound)
}

#[test]
fn version_is_read_from_the_first_line_that_names_it() {
    let manifest = "[package]\nname = \"geyser\"\nversion = \"1.2.3\"\nedition = \"2021\"\n\n[dependencies]\nversion = \"9\"\n";
    assert_eq!(version_in_manifest(manifest), Ok("1.2.3".to_string()));
}

#[test]
fn version_may_be_a_workspace_key_and_may_stand_indented() {
    assert_eq!(
        version_in_manifest("[workspace]\r\n  package.version = \"2.0.1\"  \r\n"),
        Ok("2.0.1".to_string())
    );
    assert_eq!(version_in_manifest("\t version='0.1.0'"), Ok("0.1.0".to_string()));
    assert_eq!(version_in_manifest("version=3"), Ok("3".to_string()));
}

#[test]
fn quotes_are_taken_from_the_ends_only() {
    assert_eq!(version_in_manifest("version = \"\"1\"\""), Ok("1".to_string()));
    assert_eq!(version_in_manifest("version = \"'a'\""), Ok("a".to_string()));
    assert_eq!(version_in_manifest("version = '\"a\"'"), Ok("\"a\"".to_string()));
    assert_eq!(version_in_manifest("version = \"1\"2\""), Ok("1\"2".to_string()));
    assert_eq!(version_in_manifest("version = \" 1 \""), Ok(" 1 ".to_string()));
    assert_eq!(version_in_manifest("version = \"\""), Ok("".to_string()));
    assert_eq!(version_in_manifest("version ="), Ok("".to_string()));
    assert_eq!(version_in_manifest("version == 3"), Ok("= 3".to_string()));
    assert_eq!(version_in_manifest("version.workspace = true"), Ok("true".to_string()));
}

#[test]
fn a_version_line_without_equals_is_invalid() {
    assert_eq!(version_in_manifest("version"), Err(VersionError::Invalid));
    assert_eq!(version_in_manifest("name = 1\nversion 1.0\nversion = 2"), Err(VersionError::Invalid));
    assert_eq!(version_in_manifest("package.version"), Err(VersionError::Invalid));
}

#[test]
fn a_manifest_without_a_version_line_gives_none() {
    assert_eq!(version_in_manifest(""), Err(VersionError::NotFound));
    assert_eq!(version_in_manifest("\n\n"), Err(VersionError::NotFound));
    assert_eq!(version_in_manifest("name = \"x\"\nVersion = \"1\"\n"), Err(VersionError::NotFound));
    assert_eq!(version_in_manifest("rust-version = \"1.70\""), Err(VersionError::NotFound));
    assert_eq!(version_in_manifest("x\rversion = 1"), Err(VersionError::NotFound));
}

#[test]
fn reading_agrees_with_the_standard_text_functions() {
    let samples = [
        "version = \"1.0.0\"",
        "a\nb\n  version\t=\t'0.3'  \n",
        "package.version=\"7\"",
        "version",
        "versionless",
        "[package]\nname = \"v\"\n",
        "version = \u{e9}\u{4e16}\u{754c} ",
        "\u{3000}version\u{a0}=\u{2003}\"5\"\u{2028}",
        "=version = 1\nversion = = 2 =\n",
        "\n\nversion= 1\n\n",
        "version = \"\r\n",
        "version = x\u{0085}",
    ];
    for sample in samples {
        assert_eq!(version_in_manifest(sample), by_std(sample), "{:?}", sample);
    }
}

#[test]
fn white_space_is_what_the_standard_library_takes_for_it() {
    for code in 0..0x4000u32 {
        if let Some(c) = char::from_u32(code) {
            if c == '\n' {
                continue;
            }
            let sample = format!("{}version{}={}1{}", c, c, c, c);
            assert_eq!(version_in_manifest(&sample), by_std(&sample), "{:?}", c);
        }
    }
    for c in ['\u{feff}', '\u{200b}', '\u{2060}', '\u{e000}', '\u{10ffff}', '\u{1f600}'] {
        let sample = format!("{}version ={}1", c, c);
        assert_eq!(version_in_manifest(&sample), by_std(&sample), "{:?}", c);
    }
}

#[test]
fn artifact_is_looked_for_under_six_names() {
    assert_eq!(
        candidate_file_names("geyser"),
        vec![
            "geyser".to_string(),
            "geyser.tar.gz".to_string(),
            "geyser.tar.bz2".to_string(),
            "geyser.tar.xz".to_string(),
            "geyser.zip".to_string(),
            "geyser.gz".to_string(),
        ]
    );
    assert_eq!(candidate_file_names("")[1], ".tar.gz");
}

#[test]
fn object_keys() {
    assert_eq!(object_key("geyser", "1.2.3"), "bin/geyser/1.2.3/geyser");
    assert_eq!(object_key("", ""), "bin///");
    assert_eq!(latest_object_key("geyser"), "bin/latest/geyser");
    assert_eq!(latest_object_key(""), "bin/latest/");
}

use nuq::ext_from_path;
use nuq::FileFormat;

#[test]
fn file_format_from_extension() {
    assert_eq!(
        FileFormat::from_extension("json").unwrap(),
        FileFormat::Json
    );
    assert_eq!(FileFormat::from_extension("ron").unwrap(), FileFormat::Ron);
    assert_eq!(
        FileFormat::from_extension("yaml").unwrap(),
        FileFormat::Yaml
    );
    assert_eq!(FileFormat::from_extension("yml").unwrap(), FileFormat::Yaml);
    assert_eq!(
        FileFormat::from_extension("toml").unwrap(),
        FileFormat::Toml
    );
    assert_eq!(
        FileFormat::from_extension("jsonl").unwrap(),
        FileFormat::Json
    );
    assert!(FileFormat::from_extension("garbage").is_err());
}

#[test]
fn file_format_to_extension() {
    assert_eq!(FileFormat::Json.to_extension(), "json");
    assert_eq!(FileFormat::Yaml.to_extension(), "yaml");
    assert_eq!(FileFormat::Toml.to_extension(), "toml");
    assert_eq!(FileFormat::Ron.to_extension(), "ron");
}

#[test]
fn extension_from_simple_path() {
    assert_eq!(ext_from_path("foo.json").unwrap(), "json");
    assert_eq!(ext_from_path("dir/sub/data.yaml").unwrap(), "yaml");
}

#[test]
fn extension_takes_last_dot() {
    assert_eq!(ext_from_path("archive.tar.gz").unwrap(), "gz");
}

#[test]
fn extension_missing_is_an_error() {
    assert!(ext_from_path("noext").is_err());
    assert!(ext_from_path("").is_err());
    assert!(ext_from_path(".bashrc").is_err());
    assert!(ext_from_path("dir.d/noext").is_err());
}

use anonydcm::config::get_dst_dir;
use anonydcm::config::get_new_name;
use anonydcm::config::get_src_dir;
use anonydcm::config::mode_of;
use anonydcm::config::BatchConfig;
use anonydcm::config::ConfigError;
use anonydcm::config::Mode;
use anonydcm::config::SourceDir;
use anonydcm::config::ANONYMOUS_SUFFIX;

#[test]
fn the_suffix_of_the_output_directory() {
    assert_eq!(ANONYMOUS_SUFFIX, "_anonymous");
}

#[test]
fn get_src_dir_gives_parent_and_name() {
    assert_eq!(
        get_src_dir(Some("/a/b/studyX")),
        Ok(SourceDir {
            src_dir: "/a/b/studyX".to_string(),
            parent_address: Some("/a/b".to_string()),
            name_of_the_folder: "studyX".to_string(),
        })
    );
}

#[test]
fn get_src_dir_keeps_the_source_as_given() {
    let s = get_src_dir(Some("/a/b/studyX/")).unwrap();
    assert_eq!(s.src_dir, "/a/b/studyX/");
    assert_eq!(s.parent_address, Some("/a/b".to_string()));
    assert_eq!(s.name_of_the_folder, "studyX");
}

#[test]
fn get_src_dir_of_a_bare_name() {
    let s = get_src_dir(Some("studyX")).unwrap();
    assert_eq!(s.parent_address, None);
    assert_eq!(s.name_of_the_folder, "studyX");
}

#[test]
fn get_src_dir_without_a_source() {
    assert_eq!(get_src_dir(None), Err(ConfigError::MissingSource));
}

#[test]
fn get_src_dir_without_a_name() {
    assert_eq!(get_src_dir(Some("")), Err(ConfigError::InvalidSource));
    assert_eq!(get_src_dir(Some("/")), Err(ConfigError::InvalidSource));
    assert_eq!(get_src_dir(Some("//")), Err(ConfigError::InvalidSource));
}

#[test]
fn get_dst_dir_takes_the_destination_as_given() {
    assert_eq!(get_dst_dir(Some("/out"), Some("/a/b"), "studyX"), "/out");
    assert_eq!(get_dst_dir(Some("out/"), None, "studyX"), "out/");
    assert_eq!(get_dst_dir(Some(""), Some("/a/b"), "studyX"), "");
}

#[test]
fn get_dst_dir_names_a_sibling_of_the_source() {
    assert_eq!(get_dst_dir(None, Some("/a/b"), "studyX"), "/a/b/studyX_anonymous");
    assert_eq!(get_dst_dir(None, Some("/data"), "patient1"), "/data/patient1_anonymous");
}

#[test]
fn get_dst_dir_without_a_parent() {
    assert_eq!(get_dst_dir(None, None, "studyX"), "studyX_anonymous");
}

#[test]
fn get_dst_dir_under_the_root() {
    assert_eq!(get_dst_dir(None, Some(""), "studyX"), "/studyX_anonymous");
}

#[test]
fn get_new_name_defaults_to_the_empty_name() {
    assert_eq!(get_new_name(None), "");
    assert_eq!(get_new_name(Some("")), "");
    assert_eq!(get_new_name(Some("sub1")), "sub1");
    assert_eq!(get_new_name(Some("John Brown")), "John Brown");
}

#[test]
fn mode_of_the_two_switches() {
    assert_eq!(mode_of(false, false), Mode::Separate);
    assert_eq!(mode_of(true, false), Mode::InPlace);
    assert_eq!(mode_of(false, true), Mode::AllRecursive);
    assert_eq!(mode_of(true, true), Mode::AllRecursive);
}

#[test]
fn new_config_holds_what_was_asked_for() {
    let c = BatchConfig::new(Some("/a/b/studyX"), Some("/out"), Some("sub1"), true, false).unwrap();
    assert_eq!(
        c,
        BatchConfig {
            source_root: "/a/b/studyX".to_string(),
            destination_root: Some("/out".to_string()),
            replacement_name: "sub1".to_string(),
            mode: Mode::InPlace,
        }
    );
}

#[test]
fn new_config_defaults() {
    let c = BatchConfig::new(Some("studyX"), None, None, false, false).unwrap();
    assert_eq!(c.source_root, "studyX");
    assert_eq!(c.destination_root, None);
    assert_eq!(c.replacement_name, "");
    assert_eq!(c.mode, Mode::Separate);
}

#[test]
fn new_config_needs_a_source() {
    assert_eq!(
        BatchConfig::new(None, Some("/out"), Some("x"), false, false),
        Err(ConfigError::MissingSource)
    );
}

#[test]
fn new_config_needs_a_source_with_a_name() {
    assert_eq!(BatchConfig::new(Some("/"), None, None, false, true), Err(ConfigError::InvalidSource));
    assert_eq!(BatchConfig::new(Some(""), None, None, true, false), Err(ConfigError::InvalidSource));
}

#[test]
fn only_the_recursive_mode_is_recursive() {
    let mut c = BatchConfig::new(Some("/a"), None, None, false, false).unwrap();
    assert!(!c.is_recursive());
    c.mode = Mode::InPlace;
    assert!(!c.is_recursive());
    c.mode = Mode::AllRecursive;
    assert!(c.is_recursive());
}

#[test]
fn resolve_without_a_destination_names_the_sibling() {
    let c = BatchConfig::new(Some("/a/b/studyX"), None, None, false, false).unwrap();
    assert_eq!(c.resolve(), "/a/b/studyX_anonymous");
}

#[test]
fn resolve_is_the_source_with_the_suffix() {
    for (src, dst) in [
        ("/data/patient1", "/data/patient1_anonymous"),
        ("/data/patient1/", "/data/patient1_anonymous"),
        ("patient1", "patient1_anonymous"),
        ("/patient1", "/patient1_anonymous"),
        ("./patient1", "./patient1_anonymous"),
        ("a//b", "a//b_anonymous"),
    ] {
        let c = BatchConfig::new(Some(src), None, Some("x"), false, false).unwrap();
        assert_eq!(c.resolve(), dst);
    }
}

#[test]
fn resolve_with_a_destination_returns_it() {
    let c = BatchConfig::new(Some("/a/b/studyX"), Some("/elsewhere/out"), None, false, false).unwrap();
    assert_eq!(c.resolve(), "/elsewhere/out");
    let c = BatchConfig::new(Some("/a/b/studyX"), Some("no such dir/"), None, false, false).unwrap();
    assert_eq!(c.resolve(), "no such dir/");
}

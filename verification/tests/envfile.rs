use yard::envfile::{check_writable, get, legacy_temporary};
use yard::error::YardError;

const PATH: &str = "/srv/app/.env";
const LEGACY: &str = "/srv/app/..env.yard.tmp";

fn read(contents: &str, key: &str) -> Option<String> {
    get(PATH, contents, key).unwrap()
}

fn write(contents: &str, key: &str, value: &str) -> String {
    yard::envfile::set(PATH, false, contents, key, value, LEGACY, false).unwrap()
}

#[test]
fn reads_and_updates_a_value() {
    let contents = "FOO=one\nAPP_IMAGE_TAG=old\nBAR=two\n";
    assert_eq!(read(contents, "APP_IMAGE_TAG").as_deref(), Some("old"));
    let contents = write(contents, "APP_IMAGE_TAG", "new");
    assert_eq!(read(&contents, "APP_IMAGE_TAG").as_deref(), Some("new"));
    assert!(contents.contains("FOO=one\n"));
    assert!(contents.contains("APP_IMAGE_TAG=new\n"));
    assert!(contents.contains("BAR=two\n"));
}

#[test]
fn appends_a_missing_value() {
    let contents = write("FOO=one\n", "APP_IMAGE_TAG", "abc123");
    assert_eq!(read(&contents, "APP_IMAGE_TAG").as_deref(), Some("abc123"));
    assert_eq!(contents, "FOO=one\nAPP_IMAGE_TAG=abc123\n");
}

#[test]
fn planted_regular_temp_is_rejected_and_preserved() {
    let result = yard::envfile::set(PATH, false, "APP_IMAGE_TAG=old\n", "APP_IMAGE_TAG", "new", LEGACY, true);
    let message = result.unwrap_err().message();
    assert!(message.contains("temporary"), "{message}");
    assert!(message.contains(LEGACY), "{message}");
}

#[test]
fn target_symlink_is_rejected_without_touching_victim() {
    let result = yard::envfile::set(PATH, true, "intact\n", "APP_IMAGE_TAG", "new", LEGACY, false);
    assert!(result.unwrap_err().message().contains("symbolic link"));
    assert!(check_writable(PATH, true, LEGACY, false).is_err());
    assert!(check_writable(PATH, false, LEGACY, true).is_err());
    assert!(check_writable(PATH, false, LEGACY, false).is_ok());
}

#[test]
fn duplicate_entries_are_refused() {
    let contents = "TAG=a\nTAG=b\n";
    for error in [
        get(PATH, contents, "TAG").unwrap_err(),
        yard::envfile::set(PATH, false, contents, "TAG", "c", LEGACY, true).unwrap_err(),
    ] {
        match error {
            YardError::Config(reason) => {
                assert_eq!(reason, "/srv/app/.env contains duplicate TAG entries")
            }
            other => panic!("{other:?}"),
        }
    }
}

#[test]
fn line_ends_are_normalized_and_other_keys_are_kept() {
    assert_eq!(write("A=1\r\n\r\nTAG=x", "TAG", "y"), "A=1\n\nTAG=y\n");
    assert_eq!(write("", "TAG", "y"), "TAG=y\n");
    assert_eq!(read("XTAG=1\nTAG2=2\n", "TAG"), None);
    assert_eq!(read("TAG=\n", "TAG").as_deref(), Some(""));
    assert_eq!(legacy_temporary(Some(".env")), "..env.yard.tmp");
    assert_eq!(legacy_temporary(None), ".env.yard.tmp");
}

use game_server_utils::store::{DeployError, FileStore};
use game_server_utils::template::{placeholder_bytes, replace_bytes, substitute_secrets};

fn bytes(s: &str) -> Vec<u8> {
    s.as_bytes().to_vec()
}

fn secret(key: &str, value: &str) -> (Vec<u8>, Vec<u8>) {
    (bytes(key), bytes(value))
}

#[test]
fn substitute_empty_secrets_is_identity() {
    let content = bytes("port = 8080\nname = my server\n");
    let out = substitute_secrets(&content, &Vec::new());
    assert_eq!(out, content);
}

#[test]
fn substitute_without_placeholders_is_identity() {
    let content = bytes("no placeholders here, not even { braces } alone\n");
    let secrets = vec![secret("password", "hunter2"), secret("port", "7777")];
    let out = substitute_secrets(&content, &secrets);
    assert_eq!(out, content);
}

#[test]
fn substitute_round_trip_replaces_placeholder() {
    let content = bytes("password = {{ password }}\n");
    let secrets = vec![secret("password", "hunter2")];
    let out = substitute_secrets(&content, &secrets);
    assert_eq!(out, bytes("password = hunter2\n"));
    let token = bytes("{{ password }}");
    assert!(!out.windows(token.len()).any(|w| w == &token[..]));
}

#[test]
fn substitute_replaces_every_occurrence() {
    let content = bytes("a={{ k }} b={{ k }} c={{ k }}");
    let secrets = vec![secret("k", "V")];
    let out = substitute_secrets(&content, &secrets);
    assert_eq!(out, bytes("a=V b=V c=V"));
}

#[test]
fn unmatched_placeholder_is_left_verbatim() {
    let content = bytes("a={{ known }} b={{ unknown }}");
    let secrets = vec![secret("known", "K")];
    let out = substitute_secrets(&content, &secrets);
    assert_eq!(out, bytes("a=K b={{ unknown }}"));
}

#[test]
fn substitute_applies_several_keys() {
    let content = bytes("port={{ port }} pass={{ password }} world={{ world_name }}");
    let secrets = vec![
        secret("password", "s3cret"),
        secret("port", "7777"),
        secret("world_name", "Atlantis"),
    ];
    let out = substitute_secrets(&content, &secrets);
    assert_eq!(out, bytes("port=7777 pass=s3cret world=Atlantis"));
}

#[test]
fn substitution_is_a_single_pass_per_key() {
    // a value shaped like its own placeholder is not substituted again
    let content = bytes("x={{ a }}");
    let secrets = vec![secret("a", "{{ a }}")];
    let out = substitute_secrets(&content, &secrets);
    assert_eq!(out, bytes("x={{ a }}"));
}

#[test]
fn placeholder_bytes_builds_the_token() {
    assert_eq!(placeholder_bytes(&bytes("key")), bytes("{{ key }}"));
    assert_eq!(placeholder_bytes(&bytes("")), bytes("{{  }}"));
}

#[test]
fn replace_bytes_handles_adjacent_matches() {
    let out = replace_bytes(&bytes("abab"), &bytes("ab"), &bytes("z"));
    assert_eq!(out, bytes("zz"));
}

#[test]
fn replace_bytes_does_not_rescan_the_value() {
    // replacing "aa" by "a" in "aaa" consumes the first two bytes
    let out = replace_bytes(&bytes("aaa"), &bytes("aa"), &bytes("a"));
    assert_eq!(out, bytes("aa"));
}

#[test]
fn copy_secret_file_deploys_substituted_template() {
    let mut store = FileStore::new();
    let src = String::from("/templates/server.cfg");
    let dest = String::from("/game/server.cfg");
    store.write_file(&src, bytes("rcon_password \"{{ password }}\"\n"));
    let secrets = vec![secret("password", "hunter2")];
    assert!(store.copy_secret_file(&src, &dest, &secrets).is_ok());
    assert_eq!(store.read_file(&dest).unwrap(), &bytes("rcon_password \"hunter2\"\n"));
}

#[test]
fn copy_secret_file_missing_source_is_reported() {
    let mut store = FileStore::new();
    let src = String::from("/templates/missing.cfg");
    let dest = String::from("/game/server.cfg");
    let r = store.copy_secret_file(&src, &dest, &Vec::new());
    match r {
        Err(DeployError::SourceNotFound { path }) => assert_eq!(path, src),
        _ => panic!("expected SourceNotFound"),
    }
    assert!(store.read_file(&dest).is_none());
}

#[test]
fn copy_secret_file_overwrites_previous_deployment() {
    let mut store = FileStore::new();
    let src = String::from("/templates/server.cfg");
    let dest = String::from("/game/server.cfg");
    store.write_file(&src, bytes("password={{ password }}"));
    let first = vec![secret("password", "first")];
    let second = vec![secret("password", "second")];
    assert!(store.copy_secret_file(&src, &dest, &first).is_ok());
    assert!(store.copy_secret_file(&src, &dest, &second).is_ok());
    assert_eq!(store.read_file(&dest).unwrap(), &bytes("password=second"));
}

#[test]
fn copy_secret_file_with_empty_secrets_copies_bytes_identically() {
    let mut store = FileStore::new();
    let src = String::from("/templates/raw.cfg");
    let dest = String::from("/game/raw.cfg");
    let content = bytes("left {{ verbatim }} including braces {}{}\n");
    store.write_file(&src, content.clone());
    assert!(store.copy_secret_file(&src, &dest, &Vec::new()).is_ok());
    assert_eq!(store.read_file(&dest).unwrap(), &content);
}

#[test]
fn file_store_write_and_remove() {
    let mut store = FileStore::new();
    let path = String::from("/a");
    assert!(!store.file_exists(&path));
    store.write_file(&path, bytes("one"));
    assert!(store.file_exists(&path));
    store.write_file(&path, bytes("two"));
    assert_eq!(store.read_file(&path).unwrap(), &bytes("two"));
    store.remove_file(&path);
    assert!(!store.file_exists(&path));
}

use epic_manifest_parser::auth::{AuthResponse, ClientToken, Device, ExchangeCode};
use epic_manifest_parser::info::{
    file_name_of, full_uri, ManifestElement, ManifestInfo, ManifestLocation, QueryParam,
};
use epic_manifest_parser::{EpicError, ErrorKind, ParserError, Place};

fn param(name: &str, value: &str) -> QueryParam {
    QueryParam { name: name.to_string(), value: value.to_string() }
}

fn element(manifests: Vec<ManifestLocation>) -> ManifestElement {
    ManifestElement {
        app_name: "Sugar".to_string(),
        label_name: "Live-Windows".to_string(),
        build_version: "1.2.3".to_string(),
        hash: "abcdef".to_string(),
        manifests,
    }
}

#[test]
fn client_token_encodes_id_colon_secret_in_base64() {
    let token = ClientToken::new("id", "secret");
    assert_eq!(token.client_id, "id");
    assert_eq!(token.secret, "secret");
    assert_eq!(token.encoded, "aWQ6c2VjcmV0");
    assert_eq!(token.to_string(), "aWQ6c2VjcmV0");
    assert_eq!(token.authorization_header(), "basic aWQ6c2VjcmV0");
    assert_eq!(ClientToken::new("", "").encoded, "Og==");
    assert_eq!(ClientToken::new("a", "").encoded, "YTo=");
    assert_eq!(token.clone().encoded, token.encoded);
}

#[test]
fn device_and_session_hold_what_they_are_given() {
    let device = Device::new("account", "device", "secret");
    assert_eq!(device.account_id, "account");
    assert_eq!(device.device_id, "device");
    assert_eq!(device.secret, "secret");
    let code = ExchangeCode { code: "c0de".to_string() };
    assert_eq!(code.code, "c0de");
    let auth = AuthResponse {
        access_token: "tok".to_string(),
        refresh_token: "r".to_string(),
        expires_at: "2030".to_string(),
        refresh_expires_at: "2031".to_string(),
    };
    assert_eq!(auth.authorization_header(), "bearer tok");
}

#[test]
fn service_error_prints_code_and_message() {
    let e = EpicError {
        error_code: "errors.com.epicgames.common.oauth.invalid_token".to_string(),
        error_message: "Sorry".to_string(),
    };
    assert_eq!(e.to_string(), "errors.com.epicgames.common.oauth.invalid_token: Sorry");
}

#[test]
fn parser_error_holds_kind_and_message() {
    let e = ParserError::new(ErrorKind::FetchError, "the client must be authenticated.");
    assert_eq!(e.kind, ErrorKind::FetchError);
    assert_eq!(e.message, "the client must be authenticated.");
    assert_eq!(e.to_string(), "the client must be authenticated.");
    let plain = ParserError::of_kind(ErrorKind::UnknownStorage);
    assert_eq!(plain.kind, ErrorKind::UnknownStorage);
    assert_eq!(plain.to_string(), "unknown storage flags");
    let at = plain.within(Place::ChunkTable);
    assert_eq!(at.kind, ErrorKind::UnknownStorage);
    assert_eq!(at.to_string(), "chunk table section: unknown storage flags");
    let file = ParserError::in_file("a/b.bin", "too large for this machine");
    assert_eq!(file.kind, ErrorKind::CorruptManifest);
    assert_eq!(file.to_string(), "file a/b.bin: too large for this machine");
    assert_eq!(
        file.within(Place::FileTable).to_string(),
        "file table section: file a/b.bin: too large for this machine"
    );
    let chunk = ParserError::in_chunk(ErrorKind::FetchError, "H_G.chunk");
    assert_eq!(chunk.kind, ErrorKind::FetchError);
    assert_eq!(chunk.to_string(), "chunk H_G.chunk: a chunk could not be fetched");
    let located = ParserError::located_at(ErrorKind::UnsupportedContainer, Place::ManifestInfo);
    assert_eq!(located.to_string(), "manifest info: not a binary manifest");
}

#[test]
fn every_kind_and_place_has_its_own_words() {
    let kinds = [
        (ErrorKind::UnsupportedContainer, "not a binary manifest"),
        (ErrorKind::UnsupportedEncryption, "encrypted manifests are not supported"),
        (ErrorKind::UnknownStorage, "unknown storage flags"),
        (ErrorKind::UnsupportedEncoding, "UTF-16 strings are not supported"),
        (ErrorKind::CorruptManifest, "the data is corrupt or truncated"),
        (ErrorKind::FetchError, "a chunk could not be fetched"),
        (ErrorKind::CacheIoError, "the chunk cache could not be used"),
    ];
    let places = [
        (Place::Container, "manifest container"),
        (Place::Payload, "manifest payload"),
        (Place::BuildMeta, "build meta section"),
        (Place::ChunkTable, "chunk table section"),
        (Place::FileTable, "file table section"),
        (Place::CustomFields, "custom fields section"),
        (Place::ChunkFile, "chunk file"),
        (Place::ManifestInfo, "manifest info"),
    ];
    for (kind, words) in kinds {
        assert_eq!(ParserError::of_kind(kind).to_string(), words);
        for (place, name) in places {
            let e = ParserError::located_at(kind, place);
            assert_eq!(e.kind, kind);
            assert_eq!(e.to_string(), format!("{}: {}", name, words));
        }
    }
}

#[test]
fn query_parameters_follow_the_address() {
    let plain = ManifestLocation { uri: "https://h/a/b.manifest".to_string(), query_params: vec![] };
    assert_eq!(full_uri(&plain), "https://h/a/b.manifest");
    let one = ManifestLocation {
        uri: "https://h/a/b.manifest".to_string(),
        query_params: vec![param("f_token", "x1")],
    };
    assert_eq!(full_uri(&one), "https://h/a/b.manifest?f_token=x1");
    let three = ManifestLocation {
        uri: "https://h/a/b.manifest".to_string(),
        query_params: vec![param("a", "1"), param("b", "2"), param("c", "")],
    };
    assert_eq!(full_uri(&three), "https://h/a/b.manifest?a=1&b=2&c=");
}

#[test]
fn file_name_is_what_follows_the_last_slash() {
    assert_eq!(file_name_of("/Builds/Org/x/abc.manifest"), Some("abc.manifest".to_string()));
    assert_eq!(file_name_of("/abc"), Some("abc".to_string()));
    assert_eq!(file_name_of("/"), Some(String::new()));
    assert_eq!(file_name_of("a/b/"), Some(String::new()));
    assert_eq!(file_name_of("abc"), None);
    assert_eq!(file_name_of(""), None);
}

#[test]
fn manifest_info_takes_the_first_location() {
    let info = ManifestInfo::new(&element(vec![
        ManifestLocation {
            uri: "https://download.example.com/Builds/Org/o-1/abc123.manifest".to_string(),
            query_params: vec![param("f_token", "t0k"), param("cfl", "2")],
        },
        ManifestLocation { uri: "https://other.example.com/x/y.manifest".to_string(), query_params: vec![] },
    ]))
    .unwrap();
    assert_eq!(info.app_name, "Sugar");
    assert_eq!(info.label_name, "Live-Windows");
    assert_eq!(info.build_version, "1.2.3");
    assert_eq!(info.hash, "abcdef");
    assert_eq!(info.file_name, "abc123.manifest");
    assert_eq!(
        info.uri,
        "https://download.example.com/Builds/Org/o-1/abc123.manifest?f_token=t0k&cfl=2"
    );
}

#[test]
fn manifest_info_without_a_usable_address_is_an_error() {
    let e = ManifestInfo::new(&element(vec![])).unwrap_err();
    assert_eq!(e.kind, ErrorKind::CorruptManifest);
    assert_eq!(e.to_string(), "manifest info: the data is corrupt or truncated");
    let bad = element(vec![ManifestLocation {
        uri: "http://exa mple.com/a b".to_string(),
        query_params: vec![],
    }]);
    let e = ManifestInfo::new(&bad).unwrap_err();
    assert_eq!(e.kind, ErrorKind::CorruptManifest);
}

#[test]
fn manifest_info_is_built_from_a_given_path() {
    let el = element(vec![]);
    let info = ManifestInfo::with_path(&el, "u".to_string(), Some("/a/b.bin".to_string())).unwrap();
    assert_eq!(info.file_name, "b.bin");
    assert_eq!(info.uri, "u");
    assert!(ManifestInfo::with_path(&el, "u".to_string(), Some("nothing".to_string())).is_err());
    assert!(ManifestInfo::with_path(&el, "u".to_string(), None).is_err());
}

use lora::archive::decode_lora;
use lora::files::Filer;
use lora::files::GameSource;
use lora::files::LoadError;
use lora::folder::assemble_folder;
use lora::folder::folder_archive;
use lora::folder::FolderError;
use lora::manifest::game_identity;
use lora::manifest::read_manifest;
use lora::manifest::ManifestError;

fn entry(path: &str, data: &[u8]) -> (String, Vec<u8>) {
    (path.to_string(), data.to_vec())
}

const MANIFEST: &str = r#"{ "name": "Pong", "id": "org.pong" }"#;

#[test]
fn manifest_gives_name_and_id() {
    assert_eq!(read_manifest(MANIFEST), Ok(("Pong".to_string(), "org.pong".to_string())));
    assert_eq!(
        read_manifest(r#"{"name": "a\"b \u00e9", "id": "x", "extra": 3}"#),
        Ok(("a\"b é".to_string(), "x".to_string()))
    );
}

#[test]
fn manifest_errors() {
    assert_eq!(read_manifest("not json"), Err(ManifestError::NotJson));
    assert!(matches!(read_manifest(r#"{"name": "Pong"}"#), Err(ManifestError::Invalid(_))));
    assert!(matches!(read_manifest(r#"{"name": 5, "id": "x"}"#), Err(ManifestError::Invalid(_))));
    assert!(matches!(read_manifest("[1, 2]"), Err(ManifestError::Invalid(_))));
}

#[test]
fn identity_defaults() {
    assert_eq!(game_identity(None), ("Lora App".to_string(), "red.ched.lora".to_string()));
    assert_eq!(
        game_identity(Some(("Pong".to_string(), "org.pong".to_string()))),
        ("Pong".to_string(), "org.pong".to_string())
    );
}

#[test]
fn folder_with_manifest_and_assets() {
    let listing = vec![
        entry("img", &[]),
        entry("main.lua", b"print(1)"),
        entry("lora.json", MANIFEST.as_bytes()),
        entry("img/a.png", &[1, 2]),
        entry("sub/main.lua", b"not the code"),
        entry("sub/lora.json", b"not the manifest"),
    ];
    let (name, id, code, files) = assemble_folder(listing).unwrap();
    assert_eq!(name, "Pong");
    assert_eq!(id, "org.pong");
    assert_eq!(code, "print(1)");
    assert_eq!(files.get(&"img".to_string()), Some(&vec![]));
    assert_eq!(files.get(&"img/a.png".to_string()), Some(&vec![1u8, 2]));
    assert_eq!(files.get(&"sub/main.lua".to_string()), Some(&b"not the code".to_vec()));
    assert_eq!(files.get(&"sub/lora.json".to_string()), Some(&b"not the manifest".to_vec()));
    assert_eq!(files.get(&"main.lua".to_string()), None);
    assert_eq!(files.get(&"lora.json".to_string()), None);
}

#[test]
fn folder_without_manifest_gets_defaults() {
    let (name, id, code, files) = assemble_folder(vec![entry("main.lua", b"")]).unwrap();
    assert_eq!(name, "Lora App");
    assert_eq!(id, "red.ched.lora");
    assert_eq!(code, "");
    assert_eq!(files.get(&"main.lua".to_string()), None);
}

#[test]
fn folder_refusals() {
    assert_eq!(assemble_folder(vec![]).err(), Some(FolderError::MissingCode));
    assert_eq!(
        assemble_folder(vec![entry("a.txt", b"x"), entry("lora.json", MANIFEST.as_bytes())]).err(),
        Some(FolderError::MissingCode)
    );
    assert_eq!(
        assemble_folder(vec![entry("main.lua", &[0xff, 0xfe])]).err(),
        Some(FolderError::CodeNotText)
    );
    assert_eq!(
        assemble_folder(vec![entry("lora.json", &[0xc3]), entry("main.lua", b"")]).err(),
        Some(FolderError::ManifestNotText)
    );
    assert_eq!(
        assemble_folder(vec![entry("lora.json", b"{"), entry("main.lua", b"")]).err(),
        Some(FolderError::Manifest(ManifestError::NotJson))
    );
    assert!(matches!(
        assemble_folder(vec![entry("main.lua", b""), entry("lora.json", br#"{"id": "x"}"#)]),
        Err(FolderError::Manifest(ManifestError::Invalid(_)))
    ));
}

#[test]
fn first_refusal_in_listing_order_wins() {
    let code_first = vec![entry("main.lua", &[0xff]), entry("lora.json", b"{")];
    assert_eq!(assemble_folder(code_first).err(), Some(FolderError::CodeNotText));
    let manifest_first = vec![entry("lora.json", b"{"), entry("main.lua", &[0xff])];
    assert_eq!(
        assemble_folder(manifest_first).err(),
        Some(FolderError::Manifest(ManifestError::NotJson))
    );
}

#[test]
fn compiled_folder_bytes() {
    let listing = vec![entry("main.lua", b"go"), entry("a", &[7])];
    let bytes = folder_archive(listing).unwrap();
    let mut expected: Vec<u8> = Vec::new();
    expected.extend_from_slice(&[0, 0, 0, 8]);
    expected.extend_from_slice(b"Lora App");
    expected.extend_from_slice(&[0, 0, 0, 13]);
    expected.extend_from_slice(b"red.ched.lora");
    expected.extend_from_slice(&[0, 0, 0, 0, 0, 0, 0, 2]);
    expected.extend_from_slice(b"go");
    expected.extend_from_slice(&[0, 0, 0, 1]);
    expected.extend_from_slice(b"a");
    expected.extend_from_slice(&[0, 0, 0, 0, 0, 0, 0, 1, 7]);
    assert_eq!(bytes, expected);
}

#[test]
fn compile_refusals() {
    assert_eq!(folder_archive(vec![]).err(), Some(FolderError::MissingCode));
    assert_eq!(
        folder_archive(vec![entry("lora.json", b"{")]).err(),
        Some(FolderError::MissingCode)
    );
    assert_eq!(
        folder_archive(vec![entry("lora.json", &[0xff])]).err(),
        Some(FolderError::ManifestNotText)
    );
    assert_eq!(
        folder_archive(vec![entry("main.lua", b""), entry("lora.json", b"{")]).err(),
        Some(FolderError::Manifest(ManifestError::NotJson))
    );
    assert!(folder_archive(vec![entry("main.lua", &[0xff])]).is_ok());
}

#[test]
fn compiled_folder_loads_same_game() {
    let listing = vec![
        entry("lora.json", MANIFEST.as_bytes()),
        entry("main.lua", "x = 'é'".as_bytes()),
        entry("a/b.png", &[1, 2, 3]),
        entry("c.wav", &[]),
    ];
    let (name, id, code, files) = assemble_folder(listing.clone()).unwrap();
    let (name2, id2, code2, files2) = decode_lora(folder_archive(listing).unwrap()).unwrap();
    assert_eq!((name, id, code), (name2, id2, code2));
    for path in ["a/b.png", "c.wav", "main.lua", "lora.json"] {
        assert_eq!(files.get(&path.to_string()), files2.get(&path.to_string()));
    }
}

#[test]
fn filer_loads_folder_and_archive() {
    let listing = vec![entry("main.lua", b"go"), entry("img/a.png", &[7, 8])];
    let filer = Filer::new(GameSource::Folder(listing.clone())).unwrap();
    assert_eq!(filer.read_name(), "Lora App");
    assert_eq!(filer.read_id(), "red.ched.lora");
    assert_eq!(filer.read_code(), "go");
    assert_eq!(filer.read_file("img/a.png".to_string()), Some(&vec![7u8, 8]));
    assert_eq!(filer.read_file("img/b.png".to_string()), None);
    let bytes = folder_archive(listing).unwrap();
    let filer = Filer::new(GameSource::Archive(bytes)).unwrap();
    assert_eq!(filer.read_code(), "go");
    assert_eq!(filer.read_file("img/a.png".to_string()), Some(&vec![7u8, 8]));
    assert_eq!(
        Filer::new(GameSource::Folder(vec![])).err(),
        Some(LoadError::Folder(FolderError::MissingCode))
    );
    assert_eq!(Filer::new(GameSource::Archive(vec![0, 0])).err(), Some(LoadError::BadArchive));
}

use lora::files::Filer;
use lora::files::GameSource;
use lora::files::LoraFiles;

#[test]
fn table_insert_and_get() {
    let mut files = LoraFiles::new();
    assert_eq!(files.get(&"a".to_string()), None);
    files.insert("a".to_string(), vec![1]);
    files.insert("b".to_string(), vec![2, 2]);
    files.insert("a".to_string(), vec![3]);
    assert_eq!(files.get(&"a".to_string()), Some(&vec![3u8]));
    assert_eq!(files.get(&"b".to_string()), Some(&vec![2u8, 2]));
    assert_eq!(files.get(&"c".to_string()), None);
}

#[test]
fn filer_reads() {
    let listing = vec![
        ("main.lua".to_string(), b"lora = lora".to_vec()),
        ("img/a.png".to_string(), vec![7, 8]),
    ];
    let filer = Filer::new(GameSource::Folder(listing)).unwrap();
    assert_eq!(filer.read_name(), "Lora App");
    assert_eq!(filer.read_id(), "red.ched.lora");
    assert_eq!(filer.read_code(), "lora = lora");
    assert_eq!(filer.read_file("img/a.png".to_string()), Some(&vec![7u8, 8]));
    assert_eq!(filer.read_file("img/b.png".to_string()), None);
}

#[test]
fn ids_count_up_from_zero() {
    let mut counter = lora::ids::UuidCounter::new();
    assert_eq!(counter.peek(), 0);
    assert_eq!(counter.allocate(), 0);
    assert_eq!(counter.allocate(), 1);
    assert_eq!(counter.peek(), 2);
}

use lora::detect::check_code_type;
use lora::detect::check_first_folder_type;
use lora::detect::find_lora_file;
use lora::detect::FolderEntry;

#[test]
fn code_types() {
    assert_eq!(check_code_type(Some("main.lua")), 1);
    assert_eq!(check_code_type(Some("game.lora")), 2);
    assert_eq!(check_code_type(Some("a.b.lora")), 2);
    assert_eq!(check_code_type(Some("..lora")), 2);
    assert_eq!(check_code_type(Some(".lora")), 0);
    assert_eq!(check_code_type(Some("lora")), 0);
    assert_eq!(check_code_type(Some("game.LORA")), 0);
    assert_eq!(check_code_type(Some("main.lua.bak")), 0);
    assert_eq!(check_code_type(Some("Main.lua")), 0);
    assert_eq!(check_code_type(Some("main.luac")), 0);
    assert_eq!(check_code_type(Some("")), 0);
    assert_eq!(check_code_type(None), 0);
}

fn entry(is_file: bool, name: &str) -> FolderEntry {
    FolderEntry { is_file, file_name: Some(name.to_string()) }
}

#[test]
fn first_folder_type() {
    assert_eq!(check_first_folder_type(&Vec::new()), 0);
    let entries = vec![entry(true, "readme.txt"), entry(false, "main.lua"), entry(true, "g.lora"), entry(true, "main.lua")];
    assert_eq!(check_first_folder_type(&entries), 2);
    let entries = vec![entry(true, "main.lua"), entry(true, "g.lora")];
    assert_eq!(check_first_folder_type(&entries), 1);
    let entries = vec![entry(true, "a.png"), FolderEntry { is_file: true, file_name: None }];
    assert_eq!(check_first_folder_type(&entries), 0);
}

#[test]
fn lora_file_search() {
    let entries = vec![entry(true, "main.lua"), entry(false, "x.lora"), entry(true, "y.lora"), entry(true, "z.lora")];
    assert_eq!(find_lora_file(&entries), Some(2));
    let entries = vec![entry(true, "main.lua")];
    assert_eq!(find_lora_file(&entries), None);
}

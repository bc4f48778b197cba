//! Telling what a game folder or a file given on the command line holds:
//! a `main.lua` to run from source, or a compiled `.lora` archive.
use vstd::prelude::*;
use vstd::string::StrSliceExecFns;
use vstd::string::StringExecFns;

verus! {

/// Whether a file name has the extension `lora`. A file name has an
/// extension when it holds a `.` and the part before its last `.` is not
/// empty; the extension is the part after that `.`. So the name must end
/// in `.lora` and be longer than that (`.lora` alone has no extension).
pub open spec fn has_lora_extension(name: Seq<char>) -> bool {
    name.len() > 5 && name.subrange(name.len() - 5, name.len() as int) == ".lora"@
}

/// The kind of a file by its name: 1 for `main.lua`, 2 for a file with the
/// extension `lora`, 0 for anything else.
pub open spec fn code_type(name: Seq<char>) -> u8 {
    if name == "main.lua"@ {
        1
    } else if has_lora_extension(name) {
        2
    } else {
        0
    }
}

/// The kind of a file whose name may be missing (a path ending in `..`).
pub open spec fn code_type_of(name: Option<Seq<char>>) -> u8 {
    match name {
        Some(n) => code_type(n),
        None => 0,
    }
}

/// The kind of the file at a path, given the path's last component:
/// 1 for `main.lua`, 2 for a `.lora` archive, 0 for anything else.
pub fn check_code_type(file_name: Option<&str>) -> (kind: u8)
    ensures
        kind == code_type_of(
            match file_name {
                Some(n) => Some(n@),
                None => None,
            },
        ),
{
    match file_name {
        None => 0,
        Some(name) => {
            if String::from_str(name) == String::from_str("main.lua") {
                return 1;
            }
            let len = name.unicode_len();
            if len > 5 {
                let tail = name.substring_char(len - 5, len);
                if String::from_str(tail) == String::from_str(".lora") {
                    return 2;
                }
            }
            0
        },
    }
}

/// One entry of a folder listing: whether it is a regular file, and its
/// name, if it has one.
pub struct FolderEntry {
    pub is_file: bool,
    pub file_name: Option<String>,
}

/// The kind of a folder entry: that of its name for a file, 0 for anything
/// that is not a file.
pub open spec fn entry_code_type(e: FolderEntry) -> u8 {
    if e.is_file {
        code_type_of(
            match e.file_name {
                Some(n) => Some(n@),
                None => None,
            },
        )
    } else {
        0
    }
}

/// The kind of a game folder, from its listing: that of the first file in
/// it that is `main.lua` or a `.lora` archive, or 0 where there is none.
pub fn check_first_folder_type(entries: &Vec<FolderEntry>) -> (kind: u8)
    ensures
        kind == 0 <==> forall|i: int|
            0 <= i < entries@.len() ==> entry_code_type(#[trigger] entries@[i]) == 0,
        kind != 0 ==> exists|i: int|
            0 <= i < entries@.len() && entry_code_type(#[trigger] entries@[i]) == kind && forall|
                j: int,
            | 0 <= j < i ==> entry_code_type(#[trigger] entries@[j]) == 0,
{
    let n = entries.len();
    let mut i: usize = 0;
    while i < n
        invariant
            n == entries@.len(),
            i <= n,
            forall|j: int| 0 <= j < i ==> entry_code_type(#[trigger] entries@[j]) == 0,
        decreases n - i,
    {
        let entry = &entries[i];
        if entry.is_file {
            let kind = match &entry.file_name {
                Some(name) => check_code_type(Some(name.as_str())),
                None => check_code_type(None),
            };
            if kind != 0 {
                assert(entry_code_type(entries@[i as int]) == kind);
                return kind;
            }
        }
        i = i + 1;
    }
    0
}

/// The position of the first `.lora` archive among the files of a folder
/// listing, if there is one.
pub fn find_lora_file(entries: &Vec<FolderEntry>) -> (found: Option<usize>)
    ensures
        match found {
            Some(i) => i < entries@.len() && entry_code_type(entries@[i as int]) == 2 && forall|
                j: int,
            | 0 <= j < i ==> entry_code_type(#[trigger] entries@[j]) != 2,
            None => forall|i: int|
                0 <= i < entries@.len() ==> entry_code_type(#[trigger] entries@[i]) != 2,
        },
{
    let n = entries.len();
    let mut i: usize = 0;
    while i < n
        invariant
            n == entries@.len(),
            i <= n,
            forall|j: int| 0 <= j < i ==> entry_code_type(#[trigger] entries@[j]) != 2,
        decreases n - i,
    {
        let entry = &entries[i];
        if entry.is_file {
            let kind = match &entry.file_name {
                Some(name) => check_code_type(Some(name.as_str())),
                None => check_code_type(None),
            };
            if kind == 2 {
                return Some(i);
            }
        }
        i = i + 1;
    }
    None
}

/// Law: a file is taken for the Lua source exactly when its name is
/// `main.lua`, and for an archive exactly when its name is something else
/// that is longer than five characters and ends in `.lora` (so `lora.json`,
/// `a.lora.txt` or `.lora` are neither); a folder entry is either only
/// when it is a file with such a name.
pub proof fn law_file_kinds(name: Seq<char>, e: FolderEntry)
    ensures
        code_type(name) == 1 <==> name == "main.lua"@,
        code_type(name) == 2 <==> name != "main.lua"@ && name.len() > 5 && name.subrange(
            name.len() - 5,
            name.len() as int,
        ) == ".lora"@,
        code_type(name) == 0 || code_type(name) == 1 || code_type(name) == 2,
        entry_code_type(e) != 0 ==> e.is_file && e.file_name is Some,
        e.is_file && e.file_name is Some ==> entry_code_type(e) == code_type(e.file_name->0@),
{
}

} // verus!

//! A game as a folder on disk: its listing (every file, with its path
//! relative to the folder and its contents, in the order in which the
//! folder is walked, a subfolder's files where the subfolder stands) is
//! turned into the game to run, or into its `.lora` archive.
//!
//! The file `main.lua` at the top of the folder is the game's Lua source,
//! the file `lora.json` at the top of the folder is its manifest, and
//! every other file is an asset, filed under its relative path. A game
//! without a manifest gets the default name and id.
use vstd::prelude::*;
use vstd::string::StringExecFns;
use vstd::string::StringSliceAdditionalSpecFns;
use vstd::utf8::*;

use crate::archive::{
    archive_bytes,
    decode_archive,
    encode_lora,
    entries_fit,
    law_archive_round_trip,
    str_from_utf8,
    ArchiveContents,
};
use crate::files::{entries_view, files_map, LoraFiles};
use crate::manifest::{
    default_id,
    default_name,
    game_identity,
    identity_of,
    manifest_identity,
    manifest_refusal,
    read_manifest,
    ManifestError,
};

verus! {

/// Why a folder does not give a game.
#[derive(Debug, PartialEq, Eq)]
pub enum FolderError {
    /// There is no `main.lua` at the top of the folder.
    MissingCode,
    /// The `main.lua` of a folder being loaded to run is not UTF-8 text.
    CodeNotText,
    /// The `lora.json` of the folder is not UTF-8 text.
    ManifestNotText,
    /// The `lora.json` of the folder does not give a name and an id.
    Manifest(ManifestError),
}

/// Why a folder does not give a game, as the contracts speak of it; a
/// manifest that does not read carries its text.
pub enum FolderRefusal {
    MissingCode,
    CodeNotText,
    ManifestNotText,
    ManifestUnread(Seq<char>),
}

/// Whether `e` is the error for the refusal `k`: the same kind, and for a
/// manifest that does not read, the error that reading its text gives.
pub open spec fn refused_as(e: FolderError, k: FolderRefusal) -> bool {
    match k {
        FolderRefusal::MissingCode => e is MissingCode,
        FolderRefusal::CodeNotText => e is CodeNotText,
        FolderRefusal::ManifestNotText => e is ManifestNotText,
        FolderRefusal::ManifestUnread(text) => e matches FolderError::Manifest(m) && manifest_refusal(text, m),
    }
}

/// The relative path of the Lua source: `main.lua` at the top of the folder.
pub open spec fn is_code_path(path: Seq<char>) -> bool {
    path == "main.lua"@
}

/// The relative path of the manifest: `lora.json` at the top of the folder.
pub open spec fn is_manifest_path(path: Seq<char>) -> bool {
    path == "lora.json"@
}

/// What a walk through a folder listing has found so far: the first
/// refusal, if one came up, the contents of the Lua source and the text
/// of the manifest (the last of each, where the listing holds several),
/// and the assets in listing order.
pub struct FolderScan {
    pub refusal: Option<FolderRefusal>,
    pub code: Option<Seq<u8>>,
    pub manifest: Option<Seq<char>>,
    pub assets: Seq<(Seq<char>, Seq<u8>)>,
}

/// A walk that has found nothing yet.
pub open spec fn empty_scan() -> FolderScan {
    FolderScan { refusal: None, code: None, manifest: None, assets: seq![] }
}

/// The walk `s` taken one entry further. Where the folder is loaded to
/// run (`running`), the Lua source must be text and the manifest is read
/// where it is met; where it is compiled, the Lua source is taken as
/// bytes and the manifest is read after the walk. Once a refusal came
/// up, nothing changes.
pub open spec fn scan_step(s: FolderScan, e: (Seq<char>, Seq<u8>), running: bool) -> FolderScan {
    if s.refusal is Some {
        s
    } else if is_code_path(e.0) {
        if running && !valid_utf8(e.1) {
            FolderScan { refusal: Some(FolderRefusal::CodeNotText), code: s.code, manifest: s.manifest, assets: s.assets }
        } else {
            FolderScan { refusal: None, code: Some(e.1), manifest: s.manifest, assets: s.assets }
        }
    } else if is_manifest_path(e.0) {
        if !valid_utf8(e.1) {
            FolderScan { refusal: Some(FolderRefusal::ManifestNotText), code: s.code, manifest: s.manifest, assets: s.assets }
        } else if running && manifest_identity(decode_utf8(e.1)) is None {
            FolderScan { refusal: Some(FolderRefusal::ManifestUnread(decode_utf8(e.1))), code: s.code, manifest: s.manifest, assets: s.assets }
        } else {
            FolderScan { refusal: None, code: s.code, manifest: Some(decode_utf8(e.1)), assets: s.assets }
        }
    } else {
        FolderScan { refusal: None, code: s.code, manifest: s.manifest, assets: s.assets.push(e) }
    }
}

/// The walk through the whole listing `es`.
pub open spec fn folder_scan(es: Seq<(Seq<char>, Seq<u8>)>, running: bool) -> FolderScan
    decreases es.len(),
{
    if es.len() == 0 {
        empty_scan()
    } else {
        scan_step(folder_scan(es.drop_last(), running), es.last(), running)
    }
}

/// The name and id that the manifest text `manifest` gives, or the
/// defaults where there is none.
pub open spec fn scanned_identity(manifest: Option<Seq<char>>) -> (Seq<char>, Seq<char>) {
    identity_of(
        match manifest {
            Some(text) => manifest_identity(text),
            None => None,
        },
    )
}

/// The game that the folder with listing `es` holds, loaded to run: its
/// name, its id, its Lua source and its assets in listing order; or why
/// it does not load.
pub open spec fn folder_game(es: Seq<(Seq<char>, Seq<u8>)>) -> Result<
    (Seq<char>, Seq<char>, Seq<char>, Seq<(Seq<char>, Seq<u8>)>),
    FolderRefusal,
> {
    let s = folder_scan(es, true);
    match s.refusal {
        Some(k) => Err(k),
        None => match s.code {
            None => Err(FolderRefusal::MissingCode),
            Some(code) => {
                let (name, id) = scanned_identity(s.manifest);
                Ok((name, id, decode_utf8(code), s.assets))
            },
        },
    }
}

/// The archive that the folder with listing `es` compiles to, or why it
/// does not compile.
pub open spec fn folder_archive_bytes(es: Seq<(Seq<char>, Seq<u8>)>) -> Result<Seq<u8>, FolderRefusal> {
    let s = folder_scan(es, false);
    match s.refusal {
        Some(k) => Err(k),
        None => match s.code {
            None => Err(FolderRefusal::MissingCode),
            Some(code) => if s.manifest is Some && manifest_identity(s.manifest->0) is None {
                Err(FolderRefusal::ManifestUnread(s.manifest->0))
            } else {
                let (name, id) = scanned_identity(s.manifest);
                Ok(archive_bytes(name, id, code, s.assets))
            },
        },
    }
}

/// The walk over the first `k + 1` entries is the walk over the first `k`
/// taken one entry further.
proof fn lemma_scan_take_step(es: Seq<(Seq<char>, Seq<u8>)>, k: int, running: bool)
    requires
        0 <= k < es.len(),
    ensures
        folder_scan(es.take(k + 1), running) == scan_step(
            folder_scan(es.take(k), running),
            es[k],
            running,
        ),
{
    assert(es.take(k + 1).drop_last() =~= es.take(k));
}

/// A refusal that came up in the first `k` entries is the refusal of the
/// whole listing.
proof fn lemma_refusal_sticks(es: Seq<(Seq<char>, Seq<u8>)>, k: int, running: bool)
    requires
        0 <= k <= es.len(),
        folder_scan(es.take(k), running).refusal is Some,
    ensures
        folder_scan(es, running).refusal == folder_scan(es.take(k), running).refusal,
    decreases es.len() - k,
{
    if k < es.len() {
        lemma_scan_take_step(es, k, running);
        lemma_refusal_sticks(es, k + 1, running);
    } else {
        assert(es.take(k) =~= es);
    }
}

/// Whether `path` names the file `main.lua` at the top of the folder.
fn is_code_file(path: &String) -> (b: bool)
    ensures
        b == is_code_path(path@),
{
    *path == String::from_str("main.lua")
}

/// Whether `path` names the file `lora.json` at the top of the folder.
fn is_manifest_file(path: &String) -> (b: bool)
    ensures
        b == is_manifest_path(path@),
{
    *path == String::from_str("lora.json")
}

/// Takes the first entry off `rest`, whose entries are those of `es` from
/// the `k`-th on.
fn take_first(rest: &mut Vec<(String, Vec<u8>)>, Ghost(es): Ghost<Seq<(Seq<char>, Seq<u8>)>>, Ghost(k): Ghost<int>) -> (e: (String, Vec<u8>))
    requires
        0 <= k < es.len(),
        old(rest)@.len() + k == es.len(),
        entries_view(old(rest)@) == es.skip(k),
    ensures
        (e.0@, e.1@) == es[k],
        final(rest)@.len() + k + 1 == es.len(),
        entries_view(final(rest)@) == es.skip(k + 1),
{
    let ghost before = rest@;
    assert(entries_view(before)[0] == es.skip(k)[0]);
    let e = rest.remove(0);
    assert(entries_view(rest@) =~= es.skip(k + 1)) by {
        assert forall|j: int| 0 <= j < rest@.len() implies entries_view(rest@)[j] == es.skip(k + 1)[j] by {
            assert(rest@[j] == before[j + 1]);
            assert(entries_view(before)[j + 1] == es.skip(k)[j + 1]);
        }
    }
    e
}

/// Loads the game that a folder holds, given its listing: the name and
/// id from its manifest (or the defaults), its Lua source, and the table
/// of its assets by relative path. The entries are taken in order, and
/// the first one that cannot be taken ends the load: a `main.lua` that is
/// not text, a `lora.json` that is not text or gives no name and id.
/// Without a `main.lua` the folder does not load either.
pub fn assemble_folder(listing: Vec<(String, Vec<u8>)>) -> (r: Result<(String, String, String, LoraFiles), FolderError>)
    ensures
        match folder_game(entries_view(listing@)) {
            Ok((name, id, code, assets)) => r matches Ok((n, i, c, files)) && n@ == name && i@
                == id && c@ == code && files@ == files_map(assets),
            Err(k) => r matches Err(e) && refused_as(e, k),
        },
{
    let ghost es = entries_view(listing@);
    let mut rest = listing;
    let mut code: Option<String> = None;
    let mut identity: Option<(String, String)> = None;
    let mut files = LoraFiles::new();
    let ghost mut k: int = 0;
    assert(es.take(0) =~= Seq::<(Seq<char>, Seq<u8>)>::empty());
    assert(es.skip(0) =~= es);
    while rest.len() > 0
        invariant
            es == entries_view(listing@),
            0 <= k <= es.len(),
            rest@.len() + k == es.len(),
            entries_view(rest@) == es.skip(k),
            folder_scan(es.take(k), true).refusal is None,
            match folder_scan(es.take(k), true).code {
                None => code is None,
                Some(c) => code matches Some(t) && t@ == decode_utf8(c),
            },
            match folder_scan(es.take(k), true).manifest {
                None => identity is None,
                Some(text) => identity matches Some((n, i)) && manifest_identity(text) == Some(
                    (n@, i@),
                ),
            },
            files@ == files_map(folder_scan(es.take(k), true).assets),
        decreases es.len() - k,
    {
        let (path, data) = take_first(&mut rest, Ghost(es), Ghost(k));
        proof {
            lemma_scan_take_step(es, k, true);
        }
        if is_code_file(&path) {
            match str_from_utf8(data.as_slice()) {
                None => {
                    proof {
                        lemma_refusal_sticks(es, k + 1, true);
                    }
                    return Err(FolderError::CodeNotText);
                },
                Some(text) => {
                    proof {
                        encode_utf8_decode_utf8(text@);
                    }
                    assert(decode_utf8(data@) == text@);
                    code = Some(text.to_owned());
                },
            }
        } else if is_manifest_file(&path) {
            match str_from_utf8(data.as_slice()) {
                None => {
                    proof {
                        lemma_refusal_sticks(es, k + 1, true);
                    }
                    return Err(FolderError::ManifestNotText);
                },
                Some(text) => {
                    proof {
                        encode_utf8_decode_utf8(text@);
                    }
                    assert(decode_utf8(data@) == text@);
                    match read_manifest(text) {
                        Err(e) => {
                            proof {
                                lemma_refusal_sticks(es, k + 1, true);
                            }
                            return Err(FolderError::Manifest(e));
                        },
                        Ok(found) => {
                            identity = Some(found);
                        },
                    }
                },
            }
        } else {
            proof {
                let assets = folder_scan(es.take(k), true).assets;
                assert(assets.push(es[k]).drop_last() =~= assets);
            }
            files.insert(path, data);
        }
        proof {
            k = k + 1;
        }
    }
    assert(es.take(k) =~= es);
    match code {
        None => Err(FolderError::MissingCode),
        Some(lua) => {
            let (name, id) = game_identity(identity);
            Ok((name, id, lua, files))
        },
    }
}

/// Compiles a folder, given its listing, into its `.lora` archive: the
/// name and id from its manifest (or the defaults), the bytes of its
/// `main.lua`, then its assets in listing order. A `lora.json` that is not
/// text stops the walk where it is met; after the walk, a folder without
/// a `main.lua` is refused, and then one whose manifest gives no name and
/// id.
pub fn folder_archive(listing: Vec<(String, Vec<u8>)>) -> (r: Result<Vec<u8>, FolderError>)
    ensures
        match folder_archive_bytes(entries_view(listing@)) {
            Ok(archive) => r matches Ok(bytes) && bytes@ == archive,
            Err(k) => r matches Err(e) && refused_as(e, k),
        },
{
    let ghost es = entries_view(listing@);
    let mut rest = listing;
    let mut code: Option<Vec<u8>> = None;
    let mut manifest: Option<String> = None;
    let mut assets: Vec<(String, Vec<u8>)> = Vec::new();
    let ghost mut k: int = 0;
    assert(es.take(0) =~= Seq::<(Seq<char>, Seq<u8>)>::empty());
    assert(es.skip(0) =~= es);
    assert(entries_view(assets@) =~= Seq::<(Seq<char>, Seq<u8>)>::empty());
    while rest.len() > 0
        invariant
            es == entries_view(listing@),
            0 <= k <= es.len(),
            rest@.len() + k == es.len(),
            entries_view(rest@) == es.skip(k),
            folder_scan(es.take(k), false).refusal is None,
            match folder_scan(es.take(k), false).code {
                None => code is None,
                Some(c) => code matches Some(v) && v@ == c,
            },
            match folder_scan(es.take(k), false).manifest {
                None => manifest is None,
                Some(text) => manifest matches Some(t) && t@ == text,
            },
            entries_view(assets@) == folder_scan(es.take(k), false).assets,
        decreases es.len() - k,
    {
        let (path, data) = take_first(&mut rest, Ghost(es), Ghost(k));
        proof {
            lemma_scan_take_step(es, k, false);
        }
        if is_code_file(&path) {
            code = Some(data);
        } else if is_manifest_file(&path) {
            match str_from_utf8(data.as_slice()) {
                None => {
                    proof {
                        lemma_refusal_sticks(es, k + 1, false);
                    }
                    return Err(FolderError::ManifestNotText);
                },
                Some(text) => {
                    proof {
                        encode_utf8_decode_utf8(text@);
                    }
                    assert(decode_utf8(data@) == text@);
                    manifest = Some(text.to_owned());
                },
            }
        } else {
            proof {
                assert(entries_view(assets@.push((path, data))) =~= entries_view(assets@).push(
                    es[k],
                ));
            }
            assets.push((path, data));
        }
        proof {
            k = k + 1;
        }
    }
    assert(es.take(k) =~= es);
    let lua = match code {
        None => {
            return Err(FolderError::MissingCode);
        },
        Some(lua) => lua,
    };
    let found = match manifest {
        None => None,
        Some(text) => match read_manifest(text.as_str()) {
            Err(e) => {
                return Err(FolderError::Manifest(e));
            },
            Ok(found) => Some(found),
        },
    };
    let (name, id) = game_identity(found);
    Ok(encode_lora(&name, &id, lua.as_slice(), &assets))
}

/// Where a folder loads, the walk that compiles it finds what the walk
/// that loads it finds; its Lua source is then text, and its manifest, if
/// it has one, gives a name and an id.
proof fn lemma_walks_agree(es: Seq<(Seq<char>, Seq<u8>)>)
    requires
        folder_scan(es, true).refusal is None,
    ensures
        folder_scan(es, false) == folder_scan(es, true),
        folder_scan(es, true).code matches Some(c) ==> valid_utf8(c),
        folder_scan(es, true).manifest matches Some(t) ==> manifest_identity(t) is Some,
    decreases es.len(),
{
    if es.len() > 0 {
        assert(folder_scan(es.drop_last(), true).refusal is None);
        lemma_walks_agree(es.drop_last());
    }
}

/// Law: the archive compiled from a folder that loads is read back as the
/// game that the folder loads: the same name, id, Lua source and assets,
/// in the same order (the lengths fitting the format).
pub proof fn law_compiled_folder_loads_same_game(
    es: Seq<(Seq<char>, Seq<u8>)>,
    name: Seq<char>,
    id: Seq<char>,
    code: Seq<char>,
    assets: Seq<(Seq<char>, Seq<u8>)>,
)
    requires
        folder_game(es) == Ok::<_, FolderRefusal>((name, id, code, assets)),
        encode_utf8(name).len() <= u32::MAX,
        encode_utf8(id).len() <= u32::MAX,
        encode_utf8(code).len() <= u64::MAX,
        entries_fit(assets),
    ensures
        folder_archive_bytes(es) matches Ok(bytes) && decode_archive(bytes) == Some(
            ArchiveContents { name, id, code, files: assets },
        ),
{
    lemma_walks_agree(es);
    let c = folder_scan(es, true).code->0;
    decode_utf8_encode_utf8(c);
    law_archive_round_trip(name, id, code, assets);
}

/// An entry that is neither the Lua source nor the manifest: an asset.
pub open spec fn is_asset_path(path: Seq<char>) -> bool {
    !is_code_path(path) && !is_manifest_path(path)
}

/// The assets of the listing `es`, in listing order.
pub open spec fn asset_entries(es: Seq<(Seq<char>, Seq<u8>)>) -> Seq<(Seq<char>, Seq<u8>)> {
    es.filter(|e: (Seq<char>, Seq<u8>)| is_asset_path(e.0))
}

/// Whether the entry `e` can be taken when the folder is loaded to run:
/// a `main.lua` must be text, a `lora.json` must be text that gives a name
/// and an id.
pub open spec fn entry_loads(e: (Seq<char>, Seq<u8>)) -> bool {
    &&& is_code_path(e.0) ==> valid_utf8(e.1)
    &&& is_manifest_path(e.0) ==> valid_utf8(e.1) && manifest_identity(decode_utf8(e.1)) is Some
}

/// Whether the `i`-th entry of `es` is the last one with the path `path`.
pub open spec fn last_at(es: Seq<(Seq<char>, Seq<u8>)>, i: int, path: Seq<char>) -> bool {
    &&& 0 <= i < es.len()
    &&& es[i].0 == path
    &&& forall|j: int| i < j < es.len() ==> #[trigger] es[j].0 != path
}

/// What the walk that loads a folder finds, entry by entry.
proof fn lemma_scan_shape(es: Seq<(Seq<char>, Seq<u8>)>)
    ensures
        folder_scan(es, true).refusal is None <==> forall|i: int|
            0 <= i < es.len() ==> entry_loads(#[trigger] es[i]),
        folder_scan(es, true).refusal is None ==> {
            &&& folder_scan(es, true).assets == asset_entries(es)
            &&& match folder_scan(es, true).code {
                None => forall|i: int| 0 <= i < es.len() ==> !is_code_path(#[trigger] es[i].0),
                Some(c) => exists|i: int| #[trigger] last_at(es, i, "main.lua"@) && es[i].1 == c,
            }
            &&& match folder_scan(es, true).manifest {
                None => forall|i: int| 0 <= i < es.len() ==> !is_manifest_path(#[trigger] es[i].0),
                Some(t) => exists|i: int|
                    #[trigger] last_at(es, i, "lora.json"@) && decode_utf8(es[i].1) == t,
            }
        },
    decreases es.len(),
{
    reveal_with_fuel(Seq::filter, 1);
    reveal_strlit("main.lua");
    reveal_strlit("lora.json");
    assert("main.lua"@[0] != "lora.json"@[0]);
    if es.len() > 0 {
        let prev = es.drop_last();
        let n = es.len() - 1;
        let e = es[n];
        lemma_scan_shape(prev);
        let s = folder_scan(prev, true);
        assert forall|i: int| 0 <= i < n implies #[trigger] es[i] == prev[i] by {}
        if s.refusal is None && entry_loads(e) {
            assert forall|i: int| 0 <= i < es.len() implies entry_loads(#[trigger] es[i]) by {
                if i < n {
                    assert(es[i] == prev[i]);
                }
            }
            match s.code {
                None => {
                    if is_code_path(e.0) {
                        assert(last_at(es, n, "main.lua"@));
                    } else {
                        assert forall|i: int| 0 <= i < es.len() implies !is_code_path(#[trigger] es[i].0) by {
                            if i < n {
                                assert(es[i] == prev[i]);
                            }
                        }
                    }
                },
                Some(c) => {
                    if is_code_path(e.0) {
                        assert(last_at(es, n, "main.lua"@));
                    } else {
                        let i = choose|i: int| #[trigger] last_at(prev, i, "main.lua"@) && prev[i].1 == c;
                        assert(es[i] == prev[i]);
                        assert(last_at(es, i, "main.lua"@));
                    }
                },
            }
            match s.manifest {
                None => {
                    if is_manifest_path(e.0) {
                        assert(last_at(es, n, "lora.json"@));
                    } else {
                        assert forall|i: int| 0 <= i < es.len() implies !is_manifest_path(#[trigger] es[i].0) by {
                            if i < n {
                                assert(es[i] == prev[i]);
                            }
                        }
                    }
                },
                Some(t) => {
                    if is_manifest_path(e.0) {
                        assert(last_at(es, n, "lora.json"@));
                    } else {
                        let i = choose|i: int|
                            #[trigger] last_at(prev, i, "lora.json"@) && decode_utf8(prev[i].1) == t;
                        assert(es[i] == prev[i]);
                        assert(last_at(es, i, "lora.json"@));
                    }
                },
            }
        } else if s.refusal is Some {
            let i = choose|i: int| 0 <= i < prev.len() && !entry_loads(#[trigger] prev[i]);
            assert(es[i] == prev[i]);
        } else {
            assert(!entry_loads(es[n]));
        }
    }
}

/// Law: a folder loads exactly when its listing holds a `main.lua`, every
/// `main.lua` it holds is text and every `lora.json` it holds is text that
/// gives a name and an id. The game then runs the last `main.lua`, is
/// named by the last `lora.json` (by default where there is none), and its
/// assets are all other entries, in listing order.
pub proof fn law_folder_loads(es: Seq<(Seq<char>, Seq<u8>)>)
    ensures
        folder_game(es) is Ok <==> (exists|i: int| 0 <= i < es.len() && is_code_path(#[trigger] es[i].0))
            && forall|i: int| 0 <= i < es.len() ==> entry_loads(#[trigger] es[i]),
        folder_game(es) matches Ok((name, id, code, assets)) ==> {
            &&& exists|i: int| #[trigger] last_at(es, i, "main.lua"@) && code == decode_utf8(es[i].1)
            &&& (forall|i: int| 0 <= i < es.len() ==> !is_manifest_path(#[trigger] es[i].0)) ==> name
                == default_name() && id == default_id()
            &&& forall|i: int| #[trigger]
                last_at(es, i, "lora.json"@) ==> manifest_identity(decode_utf8(es[i].1)) == Some(
                    (name, id),
                )
            &&& assets == asset_entries(es)
        },
{
    lemma_scan_shape(es);
    let s = folder_scan(es, true);
    if s.refusal is None {
        if s.code is None {
            if exists|i: int| 0 <= i < es.len() && is_code_path(#[trigger] es[i].0) {
                let i = choose|i: int| 0 <= i < es.len() && is_code_path(#[trigger] es[i].0);
                assert(!is_code_path(es[i].0));
            }
        } else {
            let i = choose|i: int| #[trigger] last_at(es, i, "main.lua"@) && es[i].1 == s.code->0;
            assert(is_code_path(es[i].0));
        }
        match s.manifest {
            None => {},
            Some(t) => {
                let i = choose|i: int| #[trigger] last_at(es, i, "lora.json"@) && decode_utf8(es[i].1) == t;
                assert(is_manifest_path(es[i].0));
                assert forall|j: int| #[trigger] last_at(es, j, "lora.json"@) implies manifest_identity(
                    decode_utf8(es[j].1),
                ) == manifest_identity(t) by {
                    if j < i {
                        assert(es[i].0 == "lora.json"@);
                    } else if i < j {
                        assert(es[j].0 == "lora.json"@);
                    }
                }
                assert(entry_loads(es[i]));
            },
        }
    }
}

} // verus!

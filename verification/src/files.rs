//! The table of asset files of a loaded game, and the `Filer` that holds a
//! game's name, id, Lua source and assets.
use vstd::prelude::*;

use crate::archive::{decode_archive, decode_lora};
use crate::folder::{assemble_folder, folder_game, refused_as, FolderError};

verus! {

/// The map that results from recording the entries of `es` one after the
/// other, a later entry for a path replacing an earlier one.
pub open spec fn files_map(es: Seq<(Seq<char>, Seq<u8>)>) -> Map<Seq<char>, Seq<u8>>
    decreases es.len(),
{
    if es.len() == 0 {
        Map::empty()
    } else {
        files_map(es.drop_last()).insert(es.last().0, es.last().1)
    }
}

/// No path occurs twice in `es`.
pub open spec fn paths_distinct(es: Seq<(Seq<char>, Seq<u8>)>) -> bool {
    forall|i: int, j: int| 0 <= i < j < es.len() ==> es[i].0 != es[j].0
}

/// The entries of `v`, each taken by its view.
pub open spec fn entries_view(v: Seq<(String, Vec<u8>)>) -> Seq<(Seq<char>, Seq<u8>)> {
    v.map_values(|p: (String, Vec<u8>)| (p.0@, p.1@))
}

/// A path that no entry carries is not in the map.
pub proof fn lemma_files_map_absent(es: Seq<(Seq<char>, Seq<u8>)>, k: Seq<char>)
    requires
        forall|i: int| 0 <= i < es.len() ==> es[i].0 != k,
    ensures
        !files_map(es).contains_key(k),
    decreases es.len(),
{
    if es.len() > 0 {
        lemma_files_map_absent(es.drop_last(), k);
    }
}

/// Where the paths are distinct, replacing the data of the entry for `k`
/// is recording `k` once more.
pub proof fn lemma_files_map_update(
    es: Seq<(Seq<char>, Seq<u8>)>,
    i: int,
    k: Seq<char>,
    v: Seq<u8>,
)
    requires
        paths_distinct(es),
        0 <= i < es.len(),
        es[i].0 == k,
    ensures
        files_map(es.update(i, (k, v))) == files_map(es).insert(k, v),
    decreases es.len(),
{
    let es2 = es.update(i, (k, v));
    if i == es.len() - 1 {
        assert(es2.drop_last() =~= es.drop_last());
        assert(files_map(es2) =~= files_map(es).insert(k, v));
    } else {
        assert(es2.drop_last() =~= es.drop_last().update(i, (k, v)));
        lemma_files_map_update(es.drop_last(), i, k, v);
        assert(files_map(es2) =~= files_map(es).insert(k, v));
    }
}

/// The asset files of a game, by path.
pub struct LoraFiles {
    entries: Vec<(String, Vec<u8>)>,
}

impl LoraFiles {
    #[verifier::type_invariant]
    spec fn paths_unique(self) -> bool {
        paths_distinct(entries_view(self.entries@))
    }

    /// The entries in the order in which their paths were first recorded.
    pub closed spec fn entries(self) -> Seq<(Seq<char>, Seq<u8>)> {
        entries_view(self.entries@)
    }

    /// An empty table.
    pub fn new() -> (files: Self)
        ensures
            files@ == Map::<Seq<char>, Seq<u8>>::empty(),
    {
        let files = LoraFiles { entries: Vec::new() };
        assert(files.entries() =~= Seq::empty());
        files
    }

    /// Records `data` as the contents of `path`, replacing what was there.
    pub fn insert(&mut self, path: String, data: Vec<u8>)
        ensures
            final(self)@ == old(self)@.insert(path@, data@),
    {
        proof {
            use_type_invariant(&*self);
        }
        let ghost es = self.entries();
        let mut entries: Vec<(String, Vec<u8>)> = Vec::new();
        std::mem::swap(&mut entries, &mut self.entries);
        let n = entries.len();
        let mut i: usize = 0;
        while i < n
            invariant
                n == entries@.len(),
                es == entries_view(entries@),
                files_map(es) == old(self)@,
                paths_distinct(es),
                i <= n,
                forall|j: int| 0 <= j < i ==> es[j].0 != path@,
            decreases n - i,
        {
            if entries[i].0 == path {
                proof {
                    lemma_files_map_update(es, i as int, path@, data@);
                    assert(entries_view(entries@.update(i as int, (path, data))) =~= es.update(
                        i as int,
                        (path@, data@),
                    ));
                }
                entries.set(i, (path, data));
                assert(entries_view(entries@) == es.update(i as int, (path@, data@)));
                assert(paths_distinct(entries_view(entries@))) by {
                    let es2 = es.update(i as int, (path@, data@));
                    assert forall|a: int, b: int| 0 <= a < b < es2.len() implies es2[a].0
                        != es2[b].0 by {
                        assert(es2[a].0 == es[a].0);
                        assert(es2[b].0 == es[b].0);
                    }
                }
                self.entries = entries;
                return;
            }
            i = i + 1;
        }
        proof {
            assert(entries_view(entries@.push((path, data))) =~= es.push((path@, data@)));
            assert(es.push((path@, data@)).drop_last() =~= es);
        }
        entries.push((path, data));
        self.entries = entries;
    }

    /// The contents recorded for `path`, if any.
    pub fn get(&self, path: &String) -> (data: Option<&Vec<u8>>)
        ensures
            match data {
                Some(d) => self@.contains_key(path@) && d@ == self@[path@],
                None => !self@.contains_key(path@),
            },
    {
        proof {
            use_type_invariant(self);
        }
        let ghost es = self.entries();
        let n = self.entries.len();
        let mut i: usize = 0;
        while i < n
            invariant
                n == self.entries@.len(),
                es == entries_view(self.entries@),
                paths_distinct(es),
                i <= n,
                forall|j: int| 0 <= j < i ==> es[j].0 != path@,
            decreases n - i,
        {
            if self.entries[i].0 == *path {
                proof {
                    law_last_record_wins(es, i as int);
                }
                return Some(&self.entries[i].1);
            }
            i = i + 1;
        }
        proof {
            lemma_files_map_absent(es, path@);
        }
        None
    }
}

impl View for LoraFiles {
    type V = Map<Seq<char>, Seq<u8>>;

    open spec fn view(&self) -> Map<Seq<char>, Seq<u8>> {
        files_map(self.entries())
    }
}


/// Law: of several records for one path, the last one is what the table
/// holds for it.
pub proof fn law_last_record_wins(es: Seq<(Seq<char>, Seq<u8>)>, i: int)
    requires
        0 <= i < es.len(),
        forall|j: int| i < j < es.len() ==> es[j].0 != es[i].0,
    ensures
        files_map(es).contains_key(es[i].0),
        files_map(es)[es[i].0] == es[i].1,
    decreases es.len(),
{
    if i < es.len() - 1 {
        law_last_record_wins(es.drop_last(), i);
    }
}

/// Law: in the table made from a list of records, the path of the last
/// record reads back as that record's contents, and every other path reads
/// as it did without that record.
pub proof fn law_read_after_insert(
    es: Seq<(Seq<char>, Seq<u8>)>,
    path: Seq<char>,
    data: Seq<u8>,
    other: Seq<char>,
)
    requires
        other != path,
    ensures
        files_map(es.push((path, data))).contains_key(path),
        files_map(es.push((path, data)))[path] == data,
        files_map(es.push((path, data))).contains_key(other) == files_map(es).contains_key(other),
        files_map(es.push((path, data)))[other] == files_map(es)[other],
{
    assert(es.push((path, data)).drop_last() =~= es);
}

/// What was read from disk for a game: the listing of its folder (each
/// file's path relative to the folder, and its contents, in the order of
/// the walk), or the bytes of its `.lora` archive.
pub enum GameSource {
    Folder(Vec<(String, Vec<u8>)>),
    Archive(Vec<u8>),
}

/// Why a game does not load.
#[derive(Debug, PartialEq, Eq)]
pub enum LoadError {
    /// The folder does not give a game.
    Folder(FolderError),
    /// The bytes are not a well-formed archive.
    BadArchive,
}

/// A loaded game: its name, its id, its Lua source and its asset files.
pub struct Filer {
    name: String,
    id: String,
    lora: String,
    lora_files: LoraFiles,
}

impl Filer {
    /// The name of the game.
    pub closed spec fn name(&self) -> Seq<char> {
        self.name@
    }

    /// The id of the game.
    pub closed spec fn id(&self) -> Seq<char> {
        self.id@
    }

    /// The Lua source of the game.
    pub closed spec fn code(&self) -> Seq<char> {
        self.lora@
    }

    /// The asset files of the game, by path.
    pub closed spec fn files(&self) -> Map<Seq<char>, Seq<u8>> {
        self.lora_files@
    }

    /// Loads a game from what was read for it: a folder is assembled as
    /// `assemble_folder` does, an archive is read as `decode_lora` does.
    pub fn new(source: GameSource) -> (r: Result<Self, LoadError>)
        ensures
            match source {
                GameSource::Folder(listing) => match folder_game(entries_view(listing@)) {
                    Ok((name, id, code, assets)) => r matches Ok(filer) && filer.name() == name
                        && filer.id() == id && filer.code() == code && filer.files() == files_map(
                        assets,
                    ),
                    Err(k) => r matches Err(LoadError::Folder(e)) && refused_as(e, k),
                },
                GameSource::Archive(bytes) => match decode_archive(bytes@) {
                    Some(a) => r matches Ok(filer) && filer.name() == a.name && filer.id() == a.id
                        && filer.code() == a.code && filer.files() == files_map(a.files),
                    None => r matches Err(LoadError::BadArchive),
                },
            },
    {
        let parts = match source {
            GameSource::Folder(listing) => match assemble_folder(listing) {
                Ok(parts) => parts,
                Err(e) => {
                    return Err(LoadError::Folder(e));
                },
            },
            GameSource::Archive(bytes) => match decode_lora(bytes) {
                Some(parts) => parts,
                None => {
                    return Err(LoadError::BadArchive);
                },
            },
        };
        let (name, id, lora, lora_files) = parts;
        Ok(Filer { name, id, lora, lora_files })
    }

    /// The name of the game.
    pub fn read_name(&self) -> (name: String)
        ensures
            name@ == self.name(),
    {
        self.name.clone()
    }

    /// The id of the game.
    pub fn read_id(&self) -> (id: String)
        ensures
            id@ == self.id(),
    {
        self.id.clone()
    }

    /// The Lua source of the game.
    pub fn read_code(&self) -> (code: String)
        ensures
            code@ == self.code(),
    {
        self.lora.clone()
    }

    /// The contents of the asset file at `path`, if the game has one.
    pub fn read_file(&self, path: String) -> (data: Option<&Vec<u8>>)
        ensures
            match data {
                Some(d) => self.files().contains_key(path@) && d@ == self.files()[path@],
                None => !self.files().contains_key(path@),
            },
    {
        self.lora_files.get(&path)
    }
}

} // verus!

//! Save-state file names: the extension of each save format, the path a save
//! is written to, and which loader a file opened by the user goes to.

use vstd::prelude::*;
use crate::text::{
    deleted, ends_with, lemma_deleted_absent, lemma_deleted_clean_prefix, lemma_no_occurrence_across,
    no_overlap, occurs_at, occurs_in, remove_all,
};

verus! {

/// The formats a save state can be written in.
#[derive(Clone, Copy, Debug, PartialEq, Eq, Structural)]
pub enum SaveFile {
    Json,
    Bin,
}

/// `".sav.json"`
pub open spec fn json_save_ext() -> Seq<char> {
    seq!['.', 's', 'a', 'v', '.', 'j', 's', 'o', 'n']
}

/// `".sav.bin"`
pub open spec fn bin_save_ext() -> Seq<char> {
    seq!['.', 's', 'a', 'v', '.', 'b', 'i', 'n']
}

/// `".tmp"`
pub open spec fn tmp_ext() -> Seq<char> {
    seq!['.', 't', 'm', 'p']
}

/// `".gb"`
pub open spec fn gb_ext() -> Seq<char> {
    seq!['.', 'g', 'b']
}

/// `".gbc"`
pub open spec fn gbc_ext() -> Seq<char> {
    seq!['.', 'g', 'b', 'c']
}

/// `".json"`
pub open spec fn json_ext() -> Seq<char> {
    seq!['.', 'j', 's', 'o', 'n']
}

/// `".bin"`
pub open spec fn bin_ext() -> Seq<char> {
    seq!['.', 'b', 'i', 'n']
}

/// Every save format, in the order in which their extensions are stripped.
pub open spec fn all_formats() -> Seq<SaveFile> {
    seq![SaveFile::Json, SaveFile::Bin]
}

/// One step of stripping: delete the extension of `format` from `path`.
pub open spec fn strip_one(path: Seq<char>, format: SaveFile) -> Seq<char> {
    deleted(path, format.spec_extension())
}

/// `path` with the extension of every save format deleted, the formats taken
/// in the order of `all_formats`.
pub open spec fn save_stem(path: Seq<char>) -> Seq<char> {
    all_formats().fold_left(path, |acc: Seq<char>, f: SaveFile| strip_one(acc, f))
}

/// Stripping the save extensions deletes the JSON extension, then the
/// binary one.
pub proof fn lemma_save_stem_unfold(path: Seq<char>)
    ensures
        save_stem(path) == deleted(deleted(path, json_save_ext()), bin_save_ext()),
{
    let fs = all_formats();
    assert(fs.drop_last() =~= seq![SaveFile::Json]);
    assert(fs.drop_last().drop_last() =~= Seq::<SaveFile>::empty());
    reveal_with_fuel(Seq::fold_left, 3);
}

/// The file a save of `rom_path` in `format` is written to.
pub open spec fn save_path_of(rom_path: Seq<char>, format: SaveFile) -> Seq<char> {
    save_stem(rom_path) + format.spec_extension()
}

/// The name under which a file opened in the browser is saved again: the
/// binary save extension is deleted first, then the JSON one.
pub open spec fn session_name_of(file_name: Seq<char>) -> Seq<char> {
    deleted(deleted(file_name, bin_save_ext()), json_save_ext())
}

impl SaveFile {
    pub open spec fn spec_extension(self) -> Seq<char> {
        match self {
            SaveFile::Json => json_save_ext(),
            SaveFile::Bin => bin_save_ext(),
        }
    }

    /// The file extension of this format, with its leading dot.
    pub fn extension(&self) -> (ext: &str)
        ensures
            ext@ == self.spec_extension(),
    {
        match self {
            SaveFile::Json => {
                let e = ".sav.json";
                proof {
                    reveal_strlit(".sav.json");
                    assert(e@ =~= json_save_ext());
                }
                e
            },
            SaveFile::Bin => {
                let e = ".sav.bin";
                proof {
                    reveal_strlit(".sav.bin");
                    assert(e@ =~= bin_save_ext());
                }
                e
            },
        }
    }

    /// Every save format.
    pub fn formats() -> (r: [SaveFile; 2])
        ensures
            r@ == all_formats(),
    {
        let r = [SaveFile::Json, SaveFile::Bin];
        assert(r@ =~= all_formats());
        r
    }
}

/// `path` with the extension of every save format deleted.
pub fn strip_save_extensions(path: &str) -> (r: String)
    ensures
        r@ == save_stem(path@),
        r@ == deleted(deleted(path@, json_save_ext()), bin_save_ext()),
{
    let formats = SaveFile::formats();
    let mut acc = String::from_str(path);
    let mut i: usize = 0;
    assert(all_formats().take(0) =~= Seq::<SaveFile>::empty());
    while i < 2
        invariant
            i <= 2,
            formats@ == all_formats(),
            acc@ == all_formats().take(i as int).fold_left(
                path@,
                |acc: Seq<char>, f: SaveFile| strip_one(acc, f),
            ),
        decreases 2 - i,
    {
        let f = formats[i];
        let ext = f.extension();
        let next = remove_all(acc.as_str(), ext);
        proof {
            assert(all_formats().take(i + 1).drop_last() =~= all_formats().take(i as int));
        }
        acc = next;
        i = i + 1;
    }
    proof {
        assert(all_formats().take(2) =~= all_formats());
        assert(all_formats().take(1).drop_last() =~= all_formats().take(0));
        assert(all_formats().take(2).drop_last() =~= all_formats().take(1));
        lemma_save_stem_unfold(path@);
    }
    acc
}

/// The file that a save of `rom_path` in `format` is written to: the path
/// with every save extension deleted, then the extension of `format`.
pub fn save_path(rom_path: &str, format: SaveFile) -> (r: String)
    ensures
        r@ == save_path_of(rom_path@, format),
{
    let stem = strip_save_extensions(rom_path);
    stem.concat(format.extension())
}

/// The scratch file kept beside `rom_path` while the emulator runs.
pub fn temp_path(rom_path: &str) -> (r: String)
    ensures
        r@ == rom_path@ + tmp_ext(),
{
    let ext = ".tmp";
    proof {
        reveal_strlit(".tmp");
        assert(ext@ =~= tmp_ext());
    }
    String::from_str(rom_path).concat(ext)
}

/// The name a file opened in the browser is known by: its name with the
/// binary and then the JSON save extension deleted.
pub fn session_name(file_name: &str) -> (r: String)
    ensures
        r@ == session_name_of(file_name@),
{
    let bin = SaveFile::Bin.extension();
    let json = SaveFile::Json.extension();
    let once = remove_all(file_name, bin);
    remove_all(once.as_str(), json)
}

/// What a file given to the emulator holds.
#[derive(Clone, Copy, Debug, PartialEq, Eq, Structural)]
pub enum LoadSource {
    /// A cartridge image, started from its boot sequence.
    Rom,
    /// A save state in the given format.
    SaveState(SaveFile),
}

/// The loader for `path`: `.gb` and `.gbc` files are cartridges, then
/// `.json` and `.bin` files are save states; any other name has none.
pub open spec fn load_source_of(path: Seq<char>) -> Option<LoadSource> {
    if gb_ext().is_suffix_of(path) || gbc_ext().is_suffix_of(path) {
        Some(LoadSource::Rom)
    } else if json_ext().is_suffix_of(path) {
        Some(LoadSource::SaveState(SaveFile::Json))
    } else if bin_ext().is_suffix_of(path) {
        Some(LoadSource::SaveState(SaveFile::Bin))
    } else {
        None
    }
}

impl LoadSource {
    /// Picks the loader by the end of the file name; `None` for a name that
    /// is neither a cartridge nor a save state.
    pub fn from_path(path: &str) -> (r: Option<LoadSource>)
        ensures
            r == load_source_of(path@),
    {
        let gb = ".gb";
        let gbc = ".gbc";
        let json = ".json";
        let bin = ".bin";
        proof {
            reveal_strlit(".gb");
            reveal_strlit(".gbc");
            reveal_strlit(".json");
            reveal_strlit(".bin");
            assert(gb@ =~= gb_ext());
            assert(gbc@ =~= gbc_ext());
            assert(json@ =~= json_ext());
            assert(bin@ =~= bin_ext());
        }
        if ends_with(path, gb) || ends_with(path, gbc) {
            Some(LoadSource::Rom)
        } else if ends_with(path, json) {
            Some(LoadSource::SaveState(SaveFile::Json))
        } else if ends_with(path, bin) {
            Some(LoadSource::SaveState(SaveFile::Bin))
        } else {
            None
        }
    }
}

/// The last `k` characters of `a + b` are the last `k` of `b`, where `b`
/// has at least `k`.
proof fn lemma_suffix_of_concat(a: Seq<char>, b: Seq<char>, t: Seq<char>)
    requires
        t.len() <= b.len(),
    ensures
        t.is_suffix_of(a + b) == t.is_suffix_of(b),
{
    let ab = a + b;
    assert(ab.subrange(ab.len() - t.len(), ab.len() as int) =~= b.subrange(
        b.len() - t.len(),
        b.len() as int,
    ));
}

/// A save written for any path is opened again as a save state of the
/// format it was written in: the name `save_path` gives ends in `.json` for
/// JSON saves and in `.bin` for binary ones, and in neither `.gb` nor `.gbc`.
pub proof fn lemma_saved_file_loads_in_its_format(rom_path: Seq<char>, format: SaveFile)
    ensures
        load_source_of(save_path_of(rom_path, format)) == Some(LoadSource::SaveState(format)),
{
    let stem = save_stem(rom_path);
    let ext = format.spec_extension();
    lemma_suffix_of_concat(stem, ext, gb_ext());
    lemma_suffix_of_concat(stem, ext, gbc_ext());
    lemma_suffix_of_concat(stem, ext, json_ext());
    lemma_suffix_of_concat(stem, ext, bin_ext());
    match format {
        SaveFile::Json => {
            assert(ext.subrange(6, 9) != gb_ext()) by {
                assert(ext.subrange(6, 9)[1] == 'o');
            }
            assert(ext.subrange(5, 9) != gbc_ext()) by {
                assert(ext.subrange(5, 9)[1] == 's');
            }
            assert(ext.subrange(4, 9) =~= json_ext());
        },
        SaveFile::Bin => {
            assert(ext.subrange(5, 8) != gb_ext()) by {
                assert(ext.subrange(5, 8)[1] == 'i');
            }
            assert(ext.subrange(4, 8) != gbc_ext()) by {
                assert(ext.subrange(4, 8)[1] == 'b');
                assert(ext.subrange(4, 8)[2] == 'i');
            }
            assert(ext.subrange(3, 8) != json_ext()) by {
                assert(ext.subrange(3, 8)[1] == '.');
            }
            assert(ext.subrange(4, 8) =~= bin_ext());
        },
    }
}

/// Neither save extension can occur across the joint of a path followed by
/// a save extension.
proof fn lemma_save_exts_do_not_overlap(ext: Seq<char>, pat: Seq<char>)
    requires
        ext == json_save_ext() || ext == bin_save_ext(),
        pat == json_save_ext() || pat == bin_save_ext(),
    ensures
        no_overlap(ext, pat),
{
    assert forall|k: int|
        1 <= k < pat.len() && pat.len() - k <= ext.len() implies #[trigger] pat.skip(k)
        != ext.take(pat.len() - k) by {
        if k == 4 {
            assert(pat.skip(k)[1] != ext.take(pat.len() - k)[1]);
        } else {
            assert(pat.skip(k)[0] != ext.take(pat.len() - k)[0]);
        }
    }
}

/// What deleting one save extension does to another.
proof fn lemma_deleted_ext(ext: Seq<char>, pat: Seq<char>)
    requires
        ext == json_save_ext() || ext == bin_save_ext(),
        pat == json_save_ext() || pat == bin_save_ext(),
    ensures
        deleted(ext, pat) == (if ext == pat {
            Seq::<char>::empty()
        } else {
            ext
        }),
{
    if ext == pat {
        assert(ext.skip(ext.len() as int) =~= Seq::<char>::empty());
        assert(pat.is_prefix_of(ext));
        assert(deleted(ext, pat) == deleted(Seq::<char>::empty(), pat));
        assert(deleted(Seq::<char>::empty(), pat) == Seq::<char>::empty());
    } else {
        assert forall|i: int| !occurs_at(ext, pat, i) by {
            if occurs_at(ext, pat, i) {
                assert(i == 0 || i == 1);
                if i == 0 {
                    assert(ext.subrange(0, pat.len() as int)[5] != pat[5]);
                } else {
                    assert(ext.subrange(1, 1 + pat.len() as int)[0] != pat[0]);
                }
            }
        }
        lemma_deleted_absent(ext, pat);
    }
}

/// Deleting a save extension from `stem + ext`, where no save extension
/// occurs in `stem`, only touches `ext`.
proof fn lemma_strip_clean_stem(stem: Seq<char>, ext: Seq<char>, pat: Seq<char>)
    requires
        ext == json_save_ext() || ext == bin_save_ext(),
        pat == json_save_ext() || pat == bin_save_ext(),
        !occurs_in(stem, pat),
    ensures
        deleted(stem + ext, pat) == stem + deleted(ext, pat),
{
    lemma_save_exts_do_not_overlap(ext, pat);
    assert forall|i: int| 0 <= i < stem.len() implies !occurs_at(stem + ext, pat, i) by {
        if occurs_at(stem + ext, pat, i) {
            lemma_no_occurrence_across(stem, ext, pat, i);
        }
    }
    lemma_deleted_clean_prefix(stem, ext, pat);
}

/// Saving again from a save writes where a save of the first path in
/// that format goes: re-saving a loaded save overwrites it, or its sibling
/// in the other format. This holds for every path whose stripped name holds
/// no save extension; on the others stripping the extensions again deletes
/// more of the name.
pub proof fn lemma_resave_targets_same_file(rom_path: Seq<char>, first: SaveFile, then: SaveFile)
    requires
        !occurs_in(save_stem(rom_path), json_save_ext()),
        !occurs_in(save_stem(rom_path), bin_save_ext()),
    ensures
        save_path_of(save_path_of(rom_path, first), then) == save_path_of(rom_path, then),
{
    let stem = save_stem(rom_path);
    let ext = first.spec_extension();
    let j = json_save_ext();
    let b = bin_save_ext();
    lemma_save_stem_unfold(stem + ext);
    lemma_strip_clean_stem(stem, ext, j);
    lemma_deleted_ext(ext, j);
    let mid = deleted(ext, j);
    if first == SaveFile::Json {
        assert(stem + mid =~= stem);
        lemma_deleted_absent(stem, b);
    } else {
        lemma_strip_clean_stem(stem, ext, b);
        lemma_deleted_ext(ext, b);
        assert(stem + Seq::<char>::empty() =~= stem);
    }
}

/// A path in which no save extension occurs is its own stem.
pub proof fn lemma_plain_path_is_its_stem(path: Seq<char>)
    requires
        !occurs_in(path, json_save_ext()),
        !occurs_in(path, bin_save_ext()),
    ensures
        save_stem(path) == path,
{
    lemma_save_stem_unfold(path);
    lemma_deleted_absent(path, json_save_ext());
    lemma_deleted_absent(path, bin_save_ext());
}

/// Any name ending in `.bin`, but not in `.gb`, `.gbc` or `.json`, is a
/// binary save state; any ending in `.json` and not in `.gb` or `.gbc` is a
/// JSON one; any ending in `.gb` or `.gbc` is a cartridge.
pub proof fn lemma_loader_by_ending(s: Seq<char>)
    ensures
        load_source_of(s + seq!['.', 'b', 'i', 'n']) == Some(LoadSource::SaveState(SaveFile::Bin)),
        load_source_of(s + seq!['.', 'j', 's', 'o', 'n']) == Some(
            LoadSource::SaveState(SaveFile::Json),
        ),
        load_source_of(s + seq!['.', 'g', 'b']) == Some(LoadSource::Rom),
        load_source_of(s + seq!['.', 'g', 'b', 'c']) == Some(LoadSource::Rom),
{
    let b = seq!['.', 'b', 'i', 'n'];
    let j = seq!['.', 'j', 's', 'o', 'n'];
    let g = seq!['.', 'g', 'b'];
    let c = seq!['.', 'g', 'b', 'c'];
    assert(b =~= bin_ext());
    assert(j =~= json_ext());
    assert(g =~= gb_ext());
    assert(c =~= gbc_ext());
    // ".bin"
    lemma_suffix_of_concat(s, b, gb_ext());
    lemma_suffix_of_concat(s, b, gbc_ext());
    lemma_suffix_of_concat(s, b, bin_ext());
    assert(b.subrange(1, 4) != gb_ext()) by {
        assert(b.subrange(1, 4)[0] != '.');
    }
    assert(b.subrange(0, 4) != gbc_ext()) by {
        assert(b.subrange(0, 4)[1] != 'g');
    }
    assert(b.subrange(0, 4) =~= bin_ext());
    if json_ext().is_suffix_of(s + b) {
        let sb = s + b;
        assert(sb[sb.len() - 1] == 'n');
        assert(sb[sb.len() - 2] == 'i');
        assert(json_ext()[3] == 'o');
        assert(sb.subrange(sb.len() - 5, sb.len() as int)[3] == sb[sb.len() - 2]);
    }
    // ".json"
    lemma_suffix_of_concat(s, j, gb_ext());
    lemma_suffix_of_concat(s, j, gbc_ext());
    lemma_suffix_of_concat(s, j, json_ext());
    assert(j.subrange(2, 5) != gb_ext()) by {
        assert(j.subrange(2, 5)[0] != '.');
    }
    assert(j.subrange(1, 5) != gbc_ext()) by {
        assert(j.subrange(1, 5)[0] != '.');
    }
    assert(j.subrange(0, 5) =~= json_ext());
    // ".gb" and ".gbc"
    lemma_suffix_of_concat(s, g, gb_ext());
    assert(g.subrange(0, 3) =~= gb_ext());
    lemma_suffix_of_concat(s, c, gbc_ext());
    assert(c.subrange(0, 4) =~= gbc_ext());
}

/// A name in which neither save extension occurs is its own session name,
/// and a save of it in either format is named after it again.
pub proof fn lemma_session_name_keeps_plain_names(f: Seq<char>)
    requires
        !occurs_in(f, seq!['.', 's', 'a', 'v', '.', 'b', 'i', 'n']),
        !occurs_in(f, seq!['.', 's', 'a', 'v', '.', 'j', 's', 'o', 'n']),
    ensures
        session_name_of(f) == f,
        session_name_of(f + seq!['.', 's', 'a', 'v', '.', 'b', 'i', 'n']) == f,
        session_name_of(f + seq!['.', 's', 'a', 'v', '.', 'j', 's', 'o', 'n']) == f,
{
    let b = bin_save_ext();
    let j = json_save_ext();
    assert(seq!['.', 's', 'a', 'v', '.', 'b', 'i', 'n'] =~= b);
    assert(seq!['.', 's', 'a', 'v', '.', 'j', 's', 'o', 'n'] =~= j);
    lemma_deleted_absent(f, b);
    lemma_deleted_absent(f, j);
    // f + ".sav.bin"
    lemma_strip_clean_stem(f, b, b);
    lemma_deleted_ext(b, b);
    assert(f + Seq::<char>::empty() =~= f);
    // f + ".sav.json"
    lemma_strip_clean_stem(f, j, b);
    lemma_deleted_ext(j, b);
    lemma_strip_clean_stem(f, j, j);
    lemma_deleted_ext(j, j);
}

/// The extensions are `.sav.json` and `.sav.bin`, the scratch file's is
/// `.tmp`.
pub proof fn lemma_extension_names()
    ensures
        SaveFile::Json.spec_extension() == seq!['.', 's', 'a', 'v', '.', 'j', 's', 'o', 'n'],
        SaveFile::Bin.spec_extension() == seq!['.', 's', 'a', 'v', '.', 'b', 'i', 'n'],
        tmp_ext() == seq!['.', 't', 'm', 'p'],
        all_formats() == seq![SaveFile::Json, SaveFile::Bin],
{
}

/// A name ending in none of `.gb`, `.gbc`, `.json` and `.bin` has no loader,
/// and one ending in `.gb` or `.gbc` is always a cartridge.
pub proof fn lemma_loader_of_other_names(s: Seq<char>)
    ensures
        !seq!['.', 'g', 'b'].is_suffix_of(s) && !seq!['.', 'g', 'b', 'c'].is_suffix_of(s)
            && !seq!['.', 'j', 's', 'o', 'n'].is_suffix_of(s) && !seq![
            '.',
            'b',
            'i',
            'n',
        ].is_suffix_of(s) ==> load_source_of(s) is None,
        seq!['.', 'g', 'b'].is_suffix_of(s) || seq!['.', 'g', 'b', 'c'].is_suffix_of(s)
            ==> load_source_of(s) == Some(LoadSource::Rom),
{
    assert(seq!['.', 'g', 'b'] =~= gb_ext());
    assert(seq!['.', 'g', 'b', 'c'] =~= gbc_ext());
    assert(seq!['.', 'j', 's', 'o', 'n'] =~= json_ext());
    assert(seq!['.', 'b', 'i', 'n'] =~= bin_ext());
}

/// The scratch file is the path followed by `.tmp`, and a save path ends in
/// its format's extension.
pub proof fn lemma_paths_end_in_their_extension(rom_path: Seq<char>, format: SaveFile)
    ensures
        format.spec_extension().is_suffix_of(save_path_of(rom_path, format)),
        (rom_path + tmp_ext()).subrange(0, rom_path.len() as int) == rom_path,
{
    let p = save_path_of(rom_path, format);
    let e = format.spec_extension();
    assert(p.subrange(p.len() - e.len(), p.len() as int) =~= e);
    assert((rom_path + tmp_ext()).subrange(0, rom_path.len() as int) =~= rom_path);
}

} // verus!

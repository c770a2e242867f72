//! The texture catalog: an ordered list of textures keyed by file stem,
//! built once from what the host observed while scanning the textures
//! directory, plus the file-name rules that drive the scan.
//!
//! The host enumerates the directory and attempts a decode/upload for each
//! regular file that [`should_load`] accepts; it hands every attempt's
//! outcome to [`TextureState::new`]. A texture value itself is opaque to
//! this crate and is carried as a handle (`usize`) into the host's own
//! texture store.

use vstd::prelude::*;
use vstd::string::StrSliceExecFns;

use crate::text::str_eq;

verus! {

/// Index of the last `'.'` of `name` at position `i` or before, never at
/// position `0`; `-1` when there is none.
pub open spec fn last_dot_from(name: Seq<char>, i: int) -> int
    decreases i,
{
    if i < 1 {
        -1
    } else if name[i] == '.' {
        i
    } else {
        last_dot_from(name, i - 1)
    }
}

/// Index of the dot separating `name` from its extension: the last `'.'`,
/// except that a leading dot (a hidden file) starts no extension. `-1`
/// when the name has no extension.
pub open spec fn last_dot(name: Seq<char>) -> int {
    last_dot_from(name, name.len() - 1)
}

/// The file name without its extension (the whole name when it has none),
/// as `std::path::Path::file_stem` reports it for a plain file name.
pub open spec fn spec_stem(name: Seq<char>) -> Seq<char> {
    if last_dot(name) < 0 {
        name
    } else {
        name.take(last_dot(name))
    }
}

/// The file name carries one of the recognized image extensions,
/// case-sensitively: `png`, `jpg` or `jpeg`.
pub open spec fn is_supported_image(name: Seq<char>) -> bool {
    let d = last_dot(name);
    d >= 1 && {
        let e = name.skip(d + 1);
        e == seq!['p', 'n', 'g'] || e == seq!['j', 'p', 'g'] || e == seq!['j', 'p', 'e', 'g']
    }
}

/// Position of the extension dot of `name`, as `last_dot` names it.
fn find_last_dot(name: &str) -> (r: Option<usize>)
    ensures
        match r {
            Some(d) => 1 <= d < name@.len() && last_dot(name@) == d as int,
            None => last_dot(name@) == -1,
        },
{
    let len = name.unicode_len();
    let mut i: usize = len;
    while i > 1
        invariant
            len == name@.len(),
            i <= len,
            last_dot(name@) == last_dot_from(name@, i as int - 1),
        decreases i,
    {
        i = i - 1;
        if name.get_char(i) == '.' {
            return Some(i);
        }
    }
    None
}

/// File stem of a plain file name: everything before the extension dot.
pub fn file_stem(name: &str) -> (r: String)
    ensures
        r@ == spec_stem(name@),
{
    match find_last_dot(name) {
        Some(d) => name.substring_char(0, d).to_owned(),
        None => name.to_owned(),
    }
}

/// Decides whether a directory entry's file name is worth a texture-load
/// attempt: true exactly for the recognized image extensions.
pub fn should_load(file_name: &str) -> (r: bool)
    ensures
        r == is_supported_image(file_name@),
{
    match find_last_dot(file_name) {
        Some(d) => {
            let len = file_name.unicode_len();
            let elen = len - d - 1;
            proof {
                assert(file_name@.skip(d + 1).len() == elen);
            }
            if elen == 3 {
                let c0 = file_name.get_char(d + 1);
                let c1 = file_name.get_char(d + 2);
                let c2 = file_name.get_char(d + 3);
                proof {
                    assert(file_name@.skip(d + 1)[0] == file_name@[d + 1]);
                    assert(file_name@.skip(d + 1)[1] == file_name@[d + 2]);
                    assert(file_name@.skip(d + 1)[2] == file_name@[d + 3]);
                }
                if c0 == 'p' && c1 == 'n' && c2 == 'g' {
                    proof {
                        assert(file_name@.skip(d + 1) =~= seq!['p', 'n', 'g']);
                    }
                    true
                } else if c0 == 'j' && c1 == 'p' && c2 == 'g' {
                    proof {
                        assert(file_name@.skip(d + 1) =~= seq!['j', 'p', 'g']);
                    }
                    true
                } else {
                    false
                }
            } else if elen == 4 {
                let c0 = file_name.get_char(d + 1);
                let c1 = file_name.get_char(d + 2);
                let c2 = file_name.get_char(d + 3);
                let c3 = file_name.get_char(d + 4);
                proof {
                    assert(file_name@.skip(d + 1)[0] == file_name@[d + 1]);
                    assert(file_name@.skip(d + 1)[1] == file_name@[d + 2]);
                    assert(file_name@.skip(d + 1)[2] == file_name@[d + 3]);
                    assert(file_name@.skip(d + 1)[3] == file_name@[d + 4]);
                }
                if c0 == 'j' && c1 == 'p' && c2 == 'e' && c3 == 'g' {
                    proof {
                        assert(file_name@.skip(d + 1) =~= seq!['j', 'p', 'e', 'g']);
                    }
                    true
                } else {
                    false
                }
            } else {
                false
            }
        },
        None => false,
    }
}

/// Mathematical model of one load attempt: the file's name and the handle
/// the host got back, absent when the decode or upload failed.
pub ghost struct AttemptModel {
    pub name: Seq<char>,
    pub texture: Option<usize>,
}

/// Outcome of one texture-load attempt on a directory entry.
pub struct LoadAttempt {
    pub file_name: String,
    pub texture: Option<usize>,
}

impl View for LoadAttempt {
    type V = AttemptModel;

    open spec fn view(&self) -> AttemptModel {
        AttemptModel { name: self.file_name@, texture: self.texture }
    }
}

/// What the host observed when scanning the textures directory.
pub enum DirectoryScan {
    /// The directory does not exist.
    Missing,
    /// The directory exists but enumerating it failed.
    Unreadable,
    /// The load attempts for the entries that `should_load` accepted, in
    /// filesystem-reported order.
    Files(Vec<LoadAttempt>),
}

/// Models of a sequence of load attempts.
pub open spec fn attempt_models(atts: Seq<LoadAttempt>) -> Seq<AttemptModel> {
    atts.map_values(|a: LoadAttempt| a@)
}

/// Catalog entries that a sequence of attempts yields: one `(stem, handle)`
/// pair per successful attempt, in order; failures contribute nothing.
pub open spec fn loaded_entries(atts: Seq<AttemptModel>) -> Seq<(Seq<char>, usize)>
    decreases atts.len(),
{
    if atts.len() == 0 {
        Seq::empty()
    } else {
        let rest = loaded_entries(atts.drop_last());
        match atts.last().texture {
            Some(id) => rest.push((spec_stem(atts.last().name), id)),
            None => rest,
        }
    }
}

/// Every attempt of the scan succeeded.
pub open spec fn all_loaded(atts: Seq<AttemptModel>) -> bool {
    forall|i: int| 0 <= i < atts.len() ==> (#[trigger] atts[i]).texture is Some
}

/// Models of a catalog's entry list.
pub open spec fn entry_models(entries: Seq<(String, usize)>) -> Seq<(Seq<char>, usize)> {
    entries.map_values(|e: (String, usize)| (e.0@, e.1))
}

/// First catalog entry named exactly `name`, if any.
pub open spec fn lookup(entries: Seq<(Seq<char>, usize)>, name: Seq<char>) -> Option<usize>
    decreases entries.len(),
{
    if entries.len() == 0 {
        None
    } else if entries[0].0 == name {
        Some(entries[0].1)
    } else {
        lookup(entries.drop_first(), name)
    }
}

/// `lookup` returns the handle of the first entry bearing `name`.
proof fn lemma_lookup_at(entries: Seq<(Seq<char>, usize)>, name: Seq<char>, j: int)
    requires
        0 <= j < entries.len(),
        entries[j].0 == name,
        forall|k: int| 0 <= k < j ==> (#[trigger] entries[k]).0 != name,
    ensures
        lookup(entries, name) == Some(entries[j].1),
    decreases j,
{
    if j > 0 {
        assert(forall|k: int|
            1 <= k < entries.len() ==> #[trigger] entries[k] == entries.drop_first()[k - 1]);
        lemma_lookup_at(entries.drop_first(), name, j - 1);
    }
}

/// `lookup` finds nothing when no entry bears `name`.
proof fn lemma_lookup_none(entries: Seq<(Seq<char>, usize)>, name: Seq<char>)
    requires
        forall|k: int| 0 <= k < entries.len() ==> (#[trigger] entries[k]).0 != name,
    ensures
        lookup(entries, name) is None,
    decreases entries.len(),
{
    if entries.len() > 0 {
        assert(forall|k: int|
            1 <= k < entries.len() ==> #[trigger] entries[k] == entries.drop_first()[k - 1]);
        lemma_lookup_none(entries.drop_first(), name);
    }
}

/// The texture catalog: overall readiness, and the loaded textures keyed
/// by file stem in load order. Names are not deduplicated; lookup returns
/// the first match.
pub struct TextureState {
    /// True exactly when the scan reached the directory, every attempt
    /// succeeded, and at least one texture was loaded.
    pub is_ready: bool,
    /// `(stem, handle)` per loaded texture, in load order.
    pub textures: Vec<(String, usize)>,
}

impl TextureState {
    /// The catalog's entries as `(name, handle)` models.
    pub open spec fn entries(&self) -> Seq<(Seq<char>, usize)> {
        entry_models(self.textures@)
    }

    /// Builds the catalog from a directory scan's outcomes: one entry per
    /// successful load, named by the file's stem; ready only when the
    /// directory was readable, nothing failed, and something was loaded.
    pub fn new(scan: DirectoryScan) -> (r: TextureState)
        ensures
            match scan {
                DirectoryScan::Missing => !r.is_ready && r.entries().len() == 0,
                DirectoryScan::Unreadable => !r.is_ready && r.entries().len() == 0,
                DirectoryScan::Files(atts) => {
                    &&& r.entries() =~= loaded_entries(attempt_models(atts@))
                    &&& r.is_ready == (all_loaded(attempt_models(atts@)) && loaded_entries(
                        attempt_models(atts@),
                    ).len() > 0)
                },
            },
    {
        match scan {
            DirectoryScan::Missing => TextureState { is_ready: false, textures: Vec::new() },
            DirectoryScan::Unreadable => TextureState { is_ready: false, textures: Vec::new() },
            DirectoryScan::Files(atts) => {
                let ghost models = attempt_models(atts@);
                let mut textures: Vec<(String, usize)> = Vec::new();
                let mut all_ok = true;
                let n = atts.len();
                for i in 0..n
                    invariant
                        n == atts@.len(),
                        models == attempt_models(atts@),
                        all_ok == (forall|k: int|
                            0 <= k < i ==> (#[trigger] models[k]).texture is Some),
                        entry_models(textures@) =~= loaded_entries(models.take(i as int)),
                {
                    proof {
                        assert(models.take(i + 1).drop_last() =~= models.take(i as int));
                        assert(models.take(i + 1).last() == models[i as int]);
                    }
                    match atts[i].texture {
                        Some(id) => {
                            let stem = file_stem(atts[i].file_name.as_str());
                            textures.push((stem, id));
                        },
                        None => {
                            all_ok = false;
                        },
                    }
                }
                proof {
                    assert(models.take(n as int) =~= models);
                }
                let ready = all_ok && textures.len() > 0;
                TextureState { is_ready: ready, textures }
            },
        }
    }

    /// Handle of the first loaded texture whose catalog name equals `name`
    /// exactly; `None` when no entry matches.
    pub fn get_texture(&self, name: &str) -> (r: Option<usize>)
        ensures
            r == lookup(self.entries(), name@),
    {
        let n = self.textures.len();
        for j in 0..n
            invariant
                n == self.entries().len(),
                forall|k: int| 0 <= k < j ==> (#[trigger] self.entries()[k]).0 != name@,
        {
            if str_eq(self.textures[j].0.as_str(), name) {
                proof {
                    lemma_lookup_at(self.entries(), name@, j as int);
                }
                return Some(self.textures[j].1);
            }
        }
        proof {
            lemma_lookup_none(self.entries(), name@);
        }
        None
    }
}

} // verus!

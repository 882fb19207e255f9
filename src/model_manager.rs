//! The directory of model files, and the models found in it.
use crate::text::{ends_with, has_suffix, less_text, text_less};
use vstd::prelude::*;

verus! {

/// A model file found in the models directory.
#[derive(Debug, Clone)]
pub struct ModelInfo {
    pub name: String,
    pub file_name: String,
    pub size_bytes: u64,
    pub is_loaded: bool,
}

/// A name for what `Path::join` gives: `name` as a path under `dir`.
pub uninterp spec fn joined_path(dir: Seq<char>, name: Seq<char>) -> Seq<char>;

/// Relies on std::path::Path::join: the path of `name` under `dir`, which
/// depends on the two texts alone.
#[verifier::external_body]
fn join_path(dir: &str, name: &str) -> (r: String)
    ensures
        r@ == joined_path(dir@, name@),
{
    std::path::Path::new(dir).join(name).to_string_lossy().into_owned()
}

/// Where the model files are kept.
pub struct ModelManager {
    models_dir: String,
}

impl ModelManager {
    /// The models directory.
    pub closed spec fn dir(&self) -> Seq<char> {
        self.models_dir@
    }

    /// A manager of the model files in `models_dir`.
    pub fn from_directory(models_dir: String) -> (r: ModelManager)
        ensures
            r.dir() == models_dir@,
    {
        ModelManager { models_dir }
    }

    /// The path of model file `model_name`.
    pub fn get_model_path(&self, model_name: &str) -> (r: String)
        ensures
            r@ == joined_path(self.dir(), model_name@),
    {
        join_path(self.models_dir.as_str(), model_name)
    }

    /// The models directory.
    pub fn models_directory(&self) -> (r: &str)
        ensures
            r@ == self.dir(),
    {
        self.models_dir.as_str()
    }
}

/// A directory entry as the file system reports it.
#[derive(Debug, Clone)]
pub struct FileEntry {
    pub file_name: String,
    pub is_file: bool,
    pub size_bytes: u64,
}

/// The extension of model files.
pub open spec fn model_suffix() -> Seq<char> {
    ".gguf"@
}

/// Whether an entry is a model file: a file whose extension is "gguf",
/// after a non-empty stem.
pub open spec fn is_model_file(e: FileEntry) -> bool {
    e.is_file && e.file_name@.len() > model_suffix().len() && has_suffix(e.file_name@, model_suffix())
}

/// The stem of a model file's name: the name without its extension.
pub open spec fn stem(name: Seq<char>) -> Seq<char> {
    name.subrange(0, name.len() - model_suffix().len())
}

/// Whether `m` describes model file `e`.
pub open spec fn describes(m: ModelInfo, e: FileEntry) -> bool {
    &&& m.name@ == stem(e.file_name@)
    &&& m.file_name@ == e.file_name@
    &&& m.size_bytes == e.size_bytes
    &&& !m.is_loaded
}

/// Places `m` after the leading models whose names do not come after its.
pub open spec fn insert_by_name(s: Seq<ModelInfo>, m: ModelInfo) -> Seq<ModelInfo>
    decreases s.len(),
{
    if s.len() == 0 {
        seq![m]
    } else if !text_less(m.name@, s[0].name@) {
        seq![s[0]] + insert_by_name(s.drop_first(), m)
    } else {
        seq![m] + s
    }
}

/// The models ordered by name; among equal names, in the order given.
pub open spec fn by_name(s: Seq<ModelInfo>) -> Seq<ModelInfo>
    decreases s.len(),
{
    if s.len() == 0 {
        Seq::empty()
    } else {
        insert_by_name(by_name(s.drop_last()), s.last())
    }
}

/// Inserting `m` at the first position whose name comes after its is what
/// `insert_by_name` does.
pub proof fn lemma_insert_by_name(s: Seq<ModelInfo>, m: ModelInfo, p: int)
    requires
        0 <= p <= s.len(),
        forall|j: int| 0 <= j < p ==> !text_less(m.name@, (#[trigger] s[j]).name@),
        p == s.len() || text_less(m.name@, s[p].name@),
    ensures
        insert_by_name(s, m) == s.insert(p, m),
    decreases p,
{
    if p == 0 {
        if s.len() == 0 {
            assert(s.insert(0, m) =~= seq![m]);
        } else {
            assert(s.insert(0, m) =~= seq![m] + s);
        }
    } else {
        let t = s.drop_first();
        assert forall|j: int| 0 <= j < p - 1 implies !text_less(m.name@, (#[trigger] t[j]).name@) by {
            assert(t[j] == s[j + 1]);
        }
        lemma_insert_by_name(t, m, p - 1);
        assert(s.insert(p, m) =~= seq![s[0]] + t.insert(p - 1, m));
    }
}

/// The models that a directory holds: one for each model file, ordered by
/// name, none of them loaded.
pub fn select_models(entries: &Vec<FileEntry>) -> (r: Vec<ModelInfo>)
    ensures
        exists|found: Seq<ModelInfo>|
            {
                &&& r@ == by_name(found)
                &&& found.len() == entries@.filter(|e: FileEntry| is_model_file(e)).len()
                &&& forall|i: int|
                    0 <= i < found.len() ==> describes(
                        #[trigger] found[i],
                        entries@.filter(|e: FileEntry| is_model_file(e))[i],
                    )
            },
{
    let ghost all = entries@;
    let ghost mut found: Seq<ModelInfo> = Seq::empty();
    let mut out: Vec<ModelInfo> = Vec::new();
    let mut i: usize = 0;
    assert(all.take(0).filter(|e: FileEntry| is_model_file(e)) =~= Seq::<FileEntry>::empty());
    while i < entries.len()
        invariant
            all == entries@,
            i <= all.len(),
            out@ == by_name(found),
            found.len() == all.take(i as int).filter(|e: FileEntry| is_model_file(e)).len(),
            forall|j: int|
                0 <= j < found.len() ==> describes(
                    #[trigger] found[j],
                    all.take(i as int).filter(|e: FileEntry| is_model_file(e))[j],
                ),
        decreases all.len() - i,
    {
        let e = &entries[i];
        let ghost before = all.take(i as int);
        assert(all.take(i + 1).drop_last() =~= before);
        reveal(Seq::filter);
        let n = e.file_name.unicode_len();
        let keep = e.is_file && n > 5 && ends_with(e.file_name.as_str(), ".gguf");
        proof {
            reveal_strlit(".gguf");
            assert(keep == is_model_file(*e));
            assert(all[i as int] == *e);
            assert(all.take(i + 1).last() == *e);
        }
        if keep {
            let m = ModelInfo {
                name: String::from_str(e.file_name.as_str().substring_char(0, n - 5)),
                file_name: e.file_name.clone(),
                size_bytes: e.size_bytes,
                is_loaded: false,
            };
            let mut p: usize = 0;
            while p < out.len() && !less_text(m.name.as_str(), out[p].name.as_str())
                invariant
                    p <= out@.len(),
                    forall|j: int| 0 <= j < p ==> !text_less(m.name@, (#[trigger] out@[j]).name@),
                decreases out@.len() - p,
            {
                p = p + 1;
            }
            proof {
                lemma_insert_by_name(out@, m, p as int);
                let f2 = found.push(m);
                assert(f2.drop_last() =~= found);
                assert(by_name(f2) == insert_by_name(by_name(found), m));
                assert forall|j: int|
                    0 <= j < f2.len() implies describes(
                    #[trigger] f2[j],
                    all.take(i + 1).filter(|e: FileEntry| is_model_file(e))[j],
                ) by {
                    if j < found.len() {
                        assert(f2[j] == found[j]);
                    }
                }
                found = f2;
            }
            out.insert(p, m);
        }
        i = i + 1;
    }
    assert(all.take(all.len() as int) =~= all);
    out
}

} // verus!

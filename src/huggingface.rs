//! The model catalog's records, and the parameters of a catalog search.
use crate::text::{ends_with, has_suffix, joined, lower_of, lowercase, same_text};
use vstd::prelude::*;

verus! {

/// Whether a model is gated: a flag, or the kind of gating ("manual",
/// "auto"), which means it is.
#[derive(Debug, Clone)]
pub enum GatedStatus {
    Boolean(bool),
    String(String),
}

impl GatedStatus {
    /// Whether the model is gated in any way.
    pub fn is_gated(&self) -> (r: bool)
        ensures
            r == match self {
                GatedStatus::Boolean(b) => *b,
                GatedStatus::String(_) => true,
            },
    {
        match self {
            GatedStatus::Boolean(b) => *b,
            GatedStatus::String(_) => true,
        }
    }
}

impl Default for GatedStatus {
    fn default() -> (r: Self)
        ensures
            r matches GatedStatus::Boolean(b) && !b,
    {
        GatedStatus::Boolean(false)
    }
}

/// A model of the catalog, as a search lists it.
#[derive(Debug, Clone)]
pub struct Model {
    pub model_id: String,
    pub author: Option<String>,
    pub downloads: Option<u64>,
    pub likes: Option<u64>,
    pub pipeline_tag: Option<String>,
    pub tags: Vec<String>,
    pub private: Option<bool>,
    pub gated: Option<GatedStatus>,
    pub last_modified: Option<String>,
    pub library_name: Option<String>,
}

/// A file of a model repository.
#[derive(Debug, Clone)]
pub struct ModelFile {
    pub filename: String,
    pub size: Option<u64>,
    pub lfs: Option<ModelFileLfs>,
}

/// Large-file storage details of a file.
#[derive(Debug)]
pub struct ModelFileLfs {
    pub oid: String,
    pub size: u64,
    pub pointer_size: Option<u64>,
}

impl Clone for ModelFileLfs {
    fn clone(&self) -> (r: Self)
        ensures
            r == *self,
    {
        ModelFileLfs { oid: self.oid.clone(), size: self.size, pointer_size: self.pointer_size }
    }
}

/// The details of one model of the catalog.
#[derive(Debug, Clone)]
pub struct ModelInfo {
    pub model_id: String,
    pub author: Option<String>,
    pub sha: String,
    pub last_modified: String,
    pub private: bool,
    pub disabled: Option<bool>,
    pub gated: Option<GatedStatus>,
    pub tags: Vec<String>,
    pub pipeline_tag: Option<String>,
    pub siblings: Vec<ModelFile>,
    pub downloads: Option<u64>,
    pub likes: Option<u64>,
    pub library_name: Option<String>,
}

/// The parameters of a catalog search; an unset one is not sent.
#[derive(Debug, Clone)]
pub struct ModelSearchParams {
    pub search: Option<String>,
    pub author: Option<String>,
    pub task: Option<String>,
    pub library: Option<String>,
    pub language: Option<String>,
    pub sort: Option<String>,
    pub direction: Option<String>,
    pub limit: Option<u32>,
    pub full: Option<bool>,
}

/// Whether `p` sets no parameter.
pub open spec fn is_unset(p: ModelSearchParams) -> bool {
    &&& p.search is None
    &&& p.author is None
    &&& p.task is None
    &&& p.library is None
    &&& p.language is None
    &&& p.sort is None
    &&& p.direction is None
    &&& p.limit is None
    &&& p.full is None
}

/// The text of a set parameter.
pub open spec fn text_of(o: Option<String>) -> Option<Seq<char>> {
    match o {
        Some(s) => Some(s@),
        None => None,
    }
}

impl Default for ModelSearchParams {
    fn default() -> (r: Self)
        ensures
            is_unset(r),
    {
        ModelSearchParams {
            search: None,
            author: None,
            task: None,
            library: None,
            language: None,
            sort: None,
            direction: None,
            limit: None,
            full: None,
        }
    }
}

impl ModelSearchParams {
    /// Parameters with none set.
    pub fn new() -> (r: Self)
        ensures
            is_unset(r),
    {
        ModelSearchParams {
            search: None,
            author: None,
            task: None,
            library: None,
            language: None,
            sort: None,
            direction: None,
            limit: None,
            full: None,
        }
    }

    /// These parameters with the search text set to `query`.
    pub fn search(self, query: &str) -> (r: Self)
        ensures
            text_of(r.search) == Some(query@),
            r == (ModelSearchParams { search: r.search, ..self }),
    {
        ModelSearchParams { search: Some(String::from_str(query)), ..self }
    }

    /// These parameters with the author set.
    pub fn author(self, author: &str) -> (r: Self)
        ensures
            text_of(r.author) == Some(author@),
            r == (ModelSearchParams { author: r.author, ..self }),
    {
        ModelSearchParams { author: Some(String::from_str(author)), ..self }
    }

    /// These parameters with the task set.
    pub fn task(self, task: &str) -> (r: Self)
        ensures
            text_of(r.task) == Some(task@),
            r == (ModelSearchParams { task: r.task, ..self }),
    {
        ModelSearchParams { task: Some(String::from_str(task)), ..self }
    }

    /// These parameters with the library set.
    pub fn library(self, library: &str) -> (r: Self)
        ensures
            text_of(r.library) == Some(library@),
            r == (ModelSearchParams { library: r.library, ..self }),
    {
        ModelSearchParams { library: Some(String::from_str(library)), ..self }
    }

    /// These parameters with the language set.
    pub fn language(self, language: &str) -> (r: Self)
        ensures
            text_of(r.language) == Some(language@),
            r == (ModelSearchParams { language: r.language, ..self }),
    {
        ModelSearchParams { language: Some(String::from_str(language)), ..self }
    }

    /// These parameters sorted by downloads.
    pub fn sort_by_downloads(self) -> (r: Self)
        ensures
            text_of(r.sort) == Some("downloads"@),
            r == (ModelSearchParams { sort: r.sort, ..self }),
    {
        ModelSearchParams { sort: Some(String::from_str("downloads")), ..self }
    }

    /// These parameters sorted by likes.
    pub fn sort_by_likes(self) -> (r: Self)
        ensures
            text_of(r.sort) == Some("likes"@),
            r == (ModelSearchParams { sort: r.sort, ..self }),
    {
        ModelSearchParams { sort: Some(String::from_str("likes")), ..self }
    }

    /// These parameters in descending order.
    pub fn descending(self) -> (r: Self)
        ensures
            text_of(r.direction) == Some("desc"@),
            r == (ModelSearchParams { direction: r.direction, ..self }),
    {
        ModelSearchParams { direction: Some(String::from_str("desc")), ..self }
    }

    /// These parameters in ascending order.
    pub fn ascending(self) -> (r: Self)
        ensures
            text_of(r.direction) == Some("asc"@),
            r == (ModelSearchParams { direction: r.direction, ..self }),
    {
        ModelSearchParams { direction: Some(String::from_str("asc")), ..self }
    }

    /// These parameters with at most `limit` results.
    pub fn limit(self, limit: u32) -> (r: Self)
        ensures
            r == (ModelSearchParams { limit: Some(limit), ..self }),
    {
        ModelSearchParams { limit: Some(limit), ..self }
    }

    /// These parameters asking for full records, or not.
    pub fn full(self, full: bool) -> (r: Self)
        ensures
            r == (ModelSearchParams { full: Some(full), ..self }),
    {
        ModelSearchParams { full: Some(full), ..self }
    }
}

/// How many models a search asks for when it sets no limit.
pub const DEFAULT_SEARCH_LIMIT: u32 = 20;

/// How many more models a discovery asks for than it keeps, to have enough
/// left once those without GGUF files are filtered out.
pub const DISCOVERY_OVERFETCH: u32 = 3;

/// The search text of a discovery: the given one followed by " gguf", or
/// "gguf" alone.
pub open spec fn discovery_search(search: Option<String>) -> Seq<char> {
    match search {
        Some(s) => s@ + " gguf"@,
        None => "gguf"@,
    }
}

/// The parameters of a search for models with GGUF files: the search text
/// asks for "gguf" too, and full records are wanted.
pub fn discovery_params(params: ModelSearchParams) -> (r: ModelSearchParams)
    ensures
        text_of(r.search) == Some(discovery_search(params.search)),
        r.full == Some(true),
        r == (ModelSearchParams { search: r.search, full: Some(true), ..params }),
{
    let search = match &params.search {
        Some(s) => joined(s.as_str(), " gguf"),
        None => String::from_str("gguf"),
    };
    ModelSearchParams { search: Some(search), full: Some(true), ..params }
}

/// How many models a discovery asks the catalog for: three times the
/// limit, which defaults to twenty.
pub fn discovery_api_limit(params: &ModelSearchParams) -> (r: u32)
    requires
        params.limit matches Some(l) ==> l * DISCOVERY_OVERFETCH <= u32::MAX,
    ensures
        r == match params.limit {
            Some(l) => l * DISCOVERY_OVERFETCH,
            None => DEFAULT_SEARCH_LIMIT * DISCOVERY_OVERFETCH,
        },
{
    let l = match params.limit {
        Some(l) => l,
        None => DEFAULT_SEARCH_LIMIT,
    };
    l * DISCOVERY_OVERFETCH
}

/// Whether a catalog model is a GGUF model: its library, or one of its
/// tags, is "gguf" in any case.
pub open spec fn is_gguf(m: Model) -> bool {
    (m.library_name matches Some(lib) && lower_of(lib@) == "gguf"@) || exists|i: int|
        0 <= i < m.tags@.len() && lower_of(#[trigger] m.tags@[i]@) == "gguf"@
}

/// Whether `model` is a GGUF model.
pub fn is_gguf_model(model: &Model) -> (r: bool)
    ensures
        r == is_gguf(*model),
{
    let by_library = match &model.library_name {
        Some(lib) => same_text(lowercase(lib.as_str()).as_str(), "gguf"),
        None => false,
    };
    if by_library {
        return true;
    }
    let mut i: usize = 0;
    while i < model.tags.len()
        invariant
            i <= model.tags@.len(),
            !(model.library_name matches Some(lib) && lower_of(lib@) == "gguf"@),
            forall|j: int| 0 <= j < i ==> lower_of(#[trigger] model.tags@[j]@) != "gguf"@,
        decreases model.tags@.len() - i,
    {
        if same_text(lowercase(model.tags[i].as_str()).as_str(), "gguf") {
            return true;
        }
        i = i + 1;
    }
    false
}

/// Whether a file of a repository is a GGUF file: its name ends with
/// ".gguf" in any case.
pub open spec fn is_gguf_file(f: ModelFile) -> bool {
    has_suffix(lower_of(f.filename@), ".gguf"@)
}

/// The GGUF files of a repository, in its order, each as the repository
/// lists it.
pub fn gguf_files(info: &ModelInfo) -> (r: Vec<ModelFile>)
    ensures
        r@.len() == info.siblings@.filter(|f: ModelFile| is_gguf_file(f)).len(),
        forall|i: int|
            0 <= i < r@.len() ==> #[trigger] r@[i] == info.siblings@.filter(
                |f: ModelFile| is_gguf_file(f),
            )[i],
{
    let ghost all = info.siblings@;
    let mut out: Vec<ModelFile> = Vec::new();
    let mut i: usize = 0;
    assert(all.take(0).filter(|f: ModelFile| is_gguf_file(f)) =~= Seq::<ModelFile>::empty());
    while i < info.siblings.len()
        invariant
            all == info.siblings@,
            i <= all.len(),
            out@.len() == all.take(i as int).filter(|f: ModelFile| is_gguf_file(f)).len(),
            forall|j: int|
                0 <= j < out@.len() ==> #[trigger] out@[j] == all.take(i as int).filter(
                    |f: ModelFile| is_gguf_file(f),
                )[j],
        decreases all.len() - i,
    {
        let f = &info.siblings[i];
        let keep = ends_with(lowercase(f.filename.as_str()).as_str(), ".gguf");
        let ghost before = all.take(i as int);
        assert(all.take(i + 1).drop_last() =~= before);
        reveal(Seq::filter);
        if keep {
            let lfs = f.lfs.clone();
            proof {
                if f.lfs is Some {
                    assert(cloned::<ModelFileLfs>(f.lfs.unwrap(), lfs.unwrap()));
                }
            }
            let copy = ModelFile { filename: f.filename.clone(), size: f.size, lfs };
            assert(copy == *f);
            out.push(copy);
        }
        i = i + 1;
    }
    assert(all.take(all.len() as int) =~= all);
    out
}

} // verus!

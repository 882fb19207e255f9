use agents_rs::huggingface::{GatedStatus, ModelSearchParams};
use agents_rs::model_manager::ModelManager;
use agents_rs::protocol::{ServerCapabilities, MCP_VERSION};

#[test]
fn gated_status() {
    assert!(!GatedStatus::Boolean(false).is_gated());
    assert!(GatedStatus::Boolean(true).is_gated());
    assert!(GatedStatus::String("manual".to_string()).is_gated());
    assert!(!GatedStatus::default().is_gated());
}

#[test]
fn search_params_builder() {
    let p = ModelSearchParams::new()
        .search("llama")
        .author("meta")
        .task("text-generation")
        .library("gguf")
        .language("en")
        .sort_by_downloads()
        .descending()
        .limit(5)
        .full(true);
    assert_eq!(p.search.as_deref(), Some("llama"));
    assert_eq!(p.author.as_deref(), Some("meta"));
    assert_eq!(p.task.as_deref(), Some("text-generation"));
    assert_eq!(p.library.as_deref(), Some("gguf"));
    assert_eq!(p.language.as_deref(), Some("en"));
    assert_eq!(p.sort.as_deref(), Some("downloads"));
    assert_eq!(p.direction.as_deref(), Some("desc"));
    assert_eq!(p.limit, Some(5));
    assert_eq!(p.full, Some(true));
    let q = p.sort_by_likes().ascending();
    assert_eq!(q.sort.as_deref(), Some("likes"));
    assert_eq!(q.direction.as_deref(), Some("asc"));
    let d = ModelSearchParams::default();
    assert!(d.search.is_none() && d.limit.is_none() && d.full.is_none());
}

#[test]
fn model_paths_are_under_the_directory() {
    let m = ModelManager::from_directory("models".to_string());
    assert_eq!(m.models_directory(), "models");
    let p = m.get_model_path("a.gguf");
    assert_eq!(std::path::Path::new(&p), std::path::Path::new("models").join("a.gguf"));
    assert_ne!(p, "a.gguf");
}

#[test]
fn server_capabilities_default() {
    let c = ServerCapabilities::default();
    assert!(c.tools && c.logging && !c.resources && !c.prompts);
    assert_eq!(MCP_VERSION, "2024-11-05");
}

use agents_rs::huggingface::{discovery_api_limit, discovery_params, gguf_files, is_gguf_model, Model, ModelFile, ModelInfo};
use agents_rs::model_manager::{select_models, FileEntry};

fn model(library: Option<&str>, tags: &[&str]) -> Model {
    Model {
        model_id: "org/m".to_string(),
        author: None,
        downloads: None,
        likes: None,
        pipeline_tag: None,
        tags: tags.iter().map(|t| t.to_string()).collect(),
        private: None,
        gated: None,
        last_modified: None,
        library_name: library.map(|l| l.to_string()),
    }
}

#[test]
fn discovery_asks_for_gguf() {
    let p = discovery_params(ModelSearchParams::new().search("qwen").limit(7));
    assert_eq!(p.search.as_deref(), Some("qwen gguf"));
    assert_eq!(p.full, Some(true));
    assert_eq!(discovery_api_limit(&p), 21);
    let q = discovery_params(ModelSearchParams::new());
    assert_eq!(q.search.as_deref(), Some("gguf"));
    assert_eq!(discovery_api_limit(&q), 60);
}

#[test]
fn gguf_models_by_library_or_tag_in_any_case() {
    assert!(is_gguf_model(&model(Some("GGUF"), &[])));
    assert!(is_gguf_model(&model(None, &["text", "Gguf"])));
    assert!(!is_gguf_model(&model(Some("transformers"), &["ggufx"])));
    assert!(!is_gguf_model(&model(None, &[])));
}

#[test]
fn gguf_files_of_a_repository() {
    let file = |n: &str, s: Option<u64>| ModelFile { filename: n.to_string(), size: s, lfs: None };
    let info = ModelInfo {
        model_id: "org/m".to_string(),
        author: None,
        sha: "abc".to_string(),
        last_modified: "2024".to_string(),
        private: false,
        disabled: None,
        gated: None,
        tags: vec![],
        pipeline_tag: None,
        siblings: vec![file("README.md", None), file("m-Q4_K_M.gguf", Some(10)), file("M-F16.GGUF", Some(20)), file("gguf", None)],
        downloads: None,
        likes: None,
        library_name: None,
    };
    let found = gguf_files(&info);
    let names: Vec<&str> = found.iter().map(|f| f.filename.as_str()).collect();
    assert_eq!(names, vec!["m-Q4_K_M.gguf", "M-F16.GGUF"]);
    assert_eq!(found[1].size, Some(20));
}

#[test]
fn model_files_are_selected_and_sorted() {
    let e = |n: &str, f: bool, s: u64| FileEntry { file_name: n.to_string(), is_file: f, size_bytes: s };
    let entries = vec![
        e("zeta.gguf", true, 3),
        e("notes.txt", true, 1),
        e(".gguf", true, 1),
        e("alpha.gguf", true, 5),
        e("dir.gguf", false, 0),
        e("Beta.gguf", true, 7),
        e("x.GGUF", true, 2),
    ];
    let models = select_models(&entries);
    let names: Vec<&str> = models.iter().map(|m| m.name.as_str()).collect();
    assert_eq!(names, vec!["Beta", "alpha", "zeta"]);
    assert_eq!(models[1].file_name, "alpha.gguf");
    assert_eq!(models[1].size_bytes, 5);
    assert!(!models[0].is_loaded);
}

//! The built-in catalog of local speech-to-text models.

use vstd::prelude::*;
use crate::text::str_eq;

verus! {

#[derive(Clone, Debug, PartialEq, Eq, Structural)]
pub enum LocalModelCategory {
    SpeechToText,
}

/// One downloadable model of the catalog.
#[derive(Clone, Debug)]
pub struct LocalModelCatalogEntry {
    pub id: String,
    pub name: String,
    pub category: LocalModelCategory,
    pub description: String,
    pub size_mb: u64,
    pub download_url: String,
    pub filename: String,
    pub speed_rating: u8,
    pub accuracy_rating: u8,
    pub language_support: String,
}

/// The identifier of catalog entry `i`.
pub open spec fn catalog_id(i: int) -> Seq<char> {
    if i == 0 {
        "whisper-tiny"@
    } else if i == 1 {
        "whisper-base"@
    } else if i == 2 {
        "whisper-small"@
    } else if i == 3 {
        "whisper-medium"@
    } else {
        "whisper-large-v3-turbo"@
    }
}

/// Every field of catalog entry `i`.
pub open spec fn catalog_entry_ok(e: LocalModelCatalogEntry, i: int) -> bool {
    &&& e.id@ == catalog_id(i)
    &&& e.category == LocalModelCategory::SpeechToText
    &&& e.language_support@ == "multilingual"@
    &&& if i == 0 {
        &&& e.name@ == "Whisper Tiny"@
        &&& e.description@ == "Fastest, lowest accuracy (~75 MB). Good for quick tests."@
        &&& e.size_mb == 75
        &&& e.download_url@
            == "https://huggingface.co/ggerganov/whisper.cpp/resolve/main/ggml-tiny.bin"@
        &&& e.filename@ == "ggml-tiny.bin"@
        &&& e.speed_rating == 5 && e.accuracy_rating == 2
    } else if i == 1 {
        &&& e.name@ == "Whisper Base"@
        &&& e.description@ == "Fast with decent accuracy (~142 MB)."@
        &&& e.size_mb == 142
        &&& e.download_url@
            == "https://huggingface.co/ggerganov/whisper.cpp/resolve/main/ggml-base.bin"@
        &&& e.filename@ == "ggml-base.bin"@
        &&& e.speed_rating == 4 && e.accuracy_rating == 3
    } else if i == 2 {
        &&& e.name@ == "Whisper Small"@
        &&& e.description@ == "Good balance of speed and accuracy (~466 MB)."@
        &&& e.size_mb == 466
        &&& e.download_url@
            == "https://huggingface.co/ggerganov/whisper.cpp/resolve/main/ggml-small.bin"@
        &&& e.filename@ == "ggml-small.bin"@
        &&& e.speed_rating == 3 && e.accuracy_rating == 4
    } else if i == 3 {
        &&& e.name@ == "Whisper Medium"@
        &&& e.description@ == "High accuracy, slower (~1.5 GB). Recommended for most users."@
        &&& e.size_mb == 1500
        &&& e.download_url@
            == "https://huggingface.co/ggerganov/whisper.cpp/resolve/main/ggml-medium.bin"@
        &&& e.filename@ == "ggml-medium.bin"@
        &&& e.speed_rating == 2 && e.accuracy_rating == 4
    } else {
        &&& e.name@ == "Whisper Large V3 Turbo"@
        &&& e.description@ == "Best accuracy with Turbo speed (~1.6 GB). Best quality option."@
        &&& e.size_mb == 1600
        &&& e.download_url@
            == "https://huggingface.co/ggerganov/whisper.cpp/resolve/main/ggml-large-v3-turbo.bin"@
        &&& e.filename@ == "ggml-large-v3-turbo.bin"@
        &&& e.speed_rating == 2 && e.accuracy_rating == 5
    }
}

/// The five catalog entries, in order.
pub fn get_model_catalog() -> (r: Vec<LocalModelCatalogEntry>)
    ensures
        r@.len() == 5,
        forall|i: int| 0 <= i < 5 ==> catalog_entry_ok(#[trigger] r@[i], i),
{
    let mut r: Vec<LocalModelCatalogEntry> = Vec::new();
    r.push(LocalModelCatalogEntry {
        id: "whisper-tiny".to_owned(),
        name: "Whisper Tiny".to_owned(),
        category: LocalModelCategory::SpeechToText,
        description: "Fastest, lowest accuracy (~75 MB). Good for quick tests.".to_owned(),
        size_mb: 75,
        download_url: "https://huggingface.co/ggerganov/whisper.cpp/resolve/main/ggml-tiny.bin"
            .to_owned(),
        filename: "ggml-tiny.bin".to_owned(),
        speed_rating: 5,
        accuracy_rating: 2,
        language_support: "multilingual".to_owned(),
    });
    r.push(LocalModelCatalogEntry {
        id: "whisper-base".to_owned(),
        name: "Whisper Base".to_owned(),
        category: LocalModelCategory::SpeechToText,
        description: "Fast with decent accuracy (~142 MB).".to_owned(),
        size_mb: 142,
        download_url: "https://huggingface.co/ggerganov/whisper.cpp/resolve/main/ggml-base.bin"
            .to_owned(),
        filename: "ggml-base.bin".to_owned(),
        speed_rating: 4,
        accuracy_rating: 3,
        language_support: "multilingual".to_owned(),
    });
    r.push(LocalModelCatalogEntry {
        id: "whisper-small".to_owned(),
        name: "Whisper Small".to_owned(),
        category: LocalModelCategory::SpeechToText,
        description: "Good balance of speed and accuracy (~466 MB).".to_owned(),
        size_mb: 466,
        download_url: "https://huggingface.co/ggerganov/whisper.cpp/resolve/main/ggml-small.bin"
            .to_owned(),
        filename: "ggml-small.bin".to_owned(),
        speed_rating: 3,
        accuracy_rating: 4,
        language_support: "multilingual".to_owned(),
    });
    r.push(LocalModelCatalogEntry {
        id: "whisper-medium".to_owned(),
        name: "Whisper Medium".to_owned(),
        category: LocalModelCategory::SpeechToText,
        description: "High accuracy, slower (~1.5 GB). Recommended for most users.".to_owned(),
        size_mb: 1500,
        download_url: "https://huggingface.co/ggerganov/whisper.cpp/resolve/main/ggml-medium.bin"
            .to_owned(),
        filename: "ggml-medium.bin".to_owned(),
        speed_rating: 2,
        accuracy_rating: 4,
        language_support: "multilingual".to_owned(),
    });
    r.push(LocalModelCatalogEntry {
        id: "whisper-large-v3-turbo".to_owned(),
        name: "Whisper Large V3 Turbo".to_owned(),
        category: LocalModelCategory::SpeechToText,
        description: "Best accuracy with Turbo speed (~1.6 GB). Best quality option.".to_owned(),
        size_mb: 1600,
        download_url:
            "https://huggingface.co/ggerganov/whisper.cpp/resolve/main/ggml-large-v3-turbo.bin"
            .to_owned(),
        filename: "ggml-large-v3-turbo.bin".to_owned(),
        speed_rating: 2,
        accuracy_rating: 5,
        language_support: "multilingual".to_owned(),
    });
    r
}

/// Look a model up by identifier: its entry when the identifier is in the
/// catalog, nothing otherwise.
pub fn find_catalog_entry(model_id: &str) -> (r: Option<LocalModelCatalogEntry>)
    ensures
        match r {
            Some(e) => exists|i: int|
                0 <= i < 5 && #[trigger] catalog_entry_ok(e, i) && e.id@ == model_id@,
            None => forall|i: int| 0 <= i < 5 ==> #[trigger] catalog_id(i) != model_id@,
        },
{
    let catalog = get_model_catalog();
    let mut k: usize = 0;
    while k < 5
        invariant
            k <= 5,
            catalog@.len() == 5,
            forall|i: int| 0 <= i < 5 ==> catalog_entry_ok(#[trigger] catalog@[i], i),
            forall|i: int| 0 <= i < k ==> #[trigger] catalog_id(i) != model_id@,
        decreases 5 - k,
    {
        if str_eq(catalog[k].id.as_str(), model_id) {
            let mut catalog = catalog;
            let e = catalog.remove(k);
            proof {
                assert(catalog_entry_ok(e, k as int));
            }
            return Some(e);
        }
        k = k + 1;
    }
    None
}

} // verus!

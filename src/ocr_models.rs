//! Which text-recognition model files a model family needs, and whether they
//! are all in place.
use vstd::prelude::*;

verus! {

pub const APP_DATA_DIR: &'static str = "MinnowSnap";

pub const MODEL_DIR: &'static str = "ocr_models";

pub const KEYS_URL: &'static str = "https://raw.githubusercontent.com/PaddlePaddle/PaddleOCR/main/ppocr/utils/dict/ppocrv5_dict.txt";

pub const KEYS_NAME: &'static str = "ppocrv5_dict.txt";

/// The two model families: larger and more accurate, or small and quick.
#[derive(Clone, Copy, Debug, PartialEq, Eq, Structural)]
pub enum OcrModelType {
    Server,
    Mobile,
}

impl Default for OcrModelType {
    fn default() -> (r: OcrModelType)
        ensures
            r == OcrModelType::Server,
    {
        OcrModelType::Server
    }
}

/// Where the detection and recognition models of a family are fetched from,
/// and the file names they are stored under.
pub struct ModelSource<'a> {
    pub det_url: &'a str,
    pub det_name: &'a str,
    pub rec_url: &'a str,
    pub rec_name: &'a str,
}

/// File names of the detection and recognition models of a family.
pub open spec fn model_names(t: OcrModelType) -> (Seq<char>, Seq<char>) {
    match t {
        OcrModelType::Server => ("ch_PP-OCRv5_server_det.onnx"@, "ch_PP-OCRv5_rec_server_infer.onnx"@),
        OcrModelType::Mobile => ("ch_PP-OCRv5_mobile_det.onnx"@, "ch_PP-OCRv5_rec_mobile_infer.onnx"@),
    }
}

/// Download addresses of the detection and recognition models of a family.
pub open spec fn model_urls(t: OcrModelType) -> (Seq<char>, Seq<char>) {
    match t {
        OcrModelType::Server => (
            "https://modelscope.cn/models/RapidAI/RapidOCR/resolve/master/onnx/PP-OCRv5/det/ch_PP-OCRv5_server_det.onnx"@,
            "https://modelscope.cn/models/RapidAI/RapidOCR/resolve/master/onnx/PP-OCRv5/rec/ch_PP-OCRv5_rec_server_infer.onnx"@,
        ),
        OcrModelType::Mobile => (
            "https://modelscope.cn/models/RapidAI/RapidOCR/resolve/master/onnx/PP-OCRv5/det/ch_PP-OCRv5_mobile_det.onnx"@,
            "https://modelscope.cn/models/RapidAI/RapidOCR/resolve/master/onnx/PP-OCRv5/rec/ch_PP-OCRv5_rec_mobile_infer.onnx"@,
        ),
    }
}

/// The models of a family.
pub fn get_model_source(model_type: OcrModelType) -> (r: ModelSource<'static>)
    ensures
        (r.det_name@, r.rec_name@) == model_names(model_type),
        (r.det_url@, r.rec_url@) == model_urls(model_type),
{
    match model_type {
        OcrModelType::Server => ModelSource {
            det_url: "https://modelscope.cn/models/RapidAI/RapidOCR/resolve/master/onnx/PP-OCRv5/det/ch_PP-OCRv5_server_det.onnx",
            det_name: "ch_PP-OCRv5_server_det.onnx",
            rec_url: "https://modelscope.cn/models/RapidAI/RapidOCR/resolve/master/onnx/PP-OCRv5/rec/ch_PP-OCRv5_rec_server_infer.onnx",
            rec_name: "ch_PP-OCRv5_rec_server_infer.onnx",
        },
        OcrModelType::Mobile => ModelSource {
            det_url: "https://modelscope.cn/models/RapidAI/RapidOCR/resolve/master/onnx/PP-OCRv5/det/ch_PP-OCRv5_mobile_det.onnx",
            det_name: "ch_PP-OCRv5_mobile_det.onnx",
            rec_url: "https://modelscope.cn/models/RapidAI/RapidOCR/resolve/master/onnx/PP-OCRv5/rec/ch_PP-OCRv5_rec_mobile_infer.onnx",
            rec_name: "ch_PP-OCRv5_rec_mobile_infer.onnx",
        },
    }
}

/// Every name of `names` is among `present`.
pub open spec fn all_present(names: Seq<Seq<char>>, present: Seq<Seq<char>>) -> bool {
    forall|i: int| 0 <= i < names.len() ==> #[trigger] present.contains(names[i])
}

pub open spec fn str_views(s: Seq<&str>) -> Seq<Seq<char>> {
    Seq::new(s.len(), |i: int| s[i]@)
}

pub open spec fn string_views(s: Seq<String>) -> Seq<Seq<char>> {
    Seq::new(s.len(), |i: int| s[i]@)
}

/// Model files kept in one directory.
pub struct ModelManager {
    save_dir: String,
}

impl ModelManager {
    pub closed spec fn dir(&self) -> String {
        self.save_dir
    }

    /// A manager for the models under `save_dir`.
    pub fn new(save_dir: String) -> (r: ModelManager)
        ensures
            r.dir() == save_dir,
    {
        ModelManager { save_dir }
    }

    /// The directory the models are kept in.
    pub fn save_dir(&self) -> (r: &String)
        ensures
            *r == self.dir(),
    {
        &self.save_dir
    }

    /// Every one of `filenames` is among `present`, the names of the files
    /// found in the model directory.
    pub fn check_models_existence(&self, filenames: &[&str], present: &Vec<String>) -> (r: bool)
        ensures
            r == all_present(str_views(filenames@), string_views(present@)),
    {
        let ghost names = str_views(filenames@);
        let ghost have = string_views(present@);
        let mut i: usize = 0;
        while i < filenames.len()
            invariant
                i <= filenames@.len(),
                names == str_views(filenames@),
                have == string_views(present@),
                forall|k: int| 0 <= k < i ==> #[trigger] have.contains(names[k]),
            decreases filenames@.len() - i,
        {
            let wanted = filenames[i].to_owned();
            let mut found = false;
            let mut j: usize = 0;
            while j < present.len()
                invariant
                    j <= present@.len(),
                    i < filenames@.len(),
                    have == string_views(present@),
                    wanted@ == names[i as int],
                    found <==> exists|k: int| 0 <= k < j && have[k] == wanted@,
                decreases present@.len() - j,
            {
                assert(have[j as int] == present@[j as int]@);
                if present[j] == wanted {
                    found = true;
                }
                j = j + 1;
            }
            if !found {
                assert(!have.contains(names[i as int]));
                return false;
            }
            assert(have[choose|k: int| 0 <= k < present@.len() && have[k] == wanted@] == names[i as int]);
            i = i + 1;
        }
        true
    }
}

/// The files a family needs: its two models and the character list.
pub open spec fn required_files(t: OcrModelType) -> Seq<Seq<char>> {
    seq![model_names(t).0, model_names(t).1, KEYS_NAME@]
}

/// All files of the family are among `present`, the names of the files found
/// in the model directory.
pub fn check_models_ready(model_type: OcrModelType, present: &Vec<String>) -> (r: bool)
    ensures
        r == all_present(required_files(model_type), string_views(present@)),
{
    let manager = ModelManager::new(String::new());
    let source = get_model_source(model_type);
    let names: [&str; 3] = [source.det_name, source.rec_name, KEYS_NAME];
    assert(str_views(names@) =~= required_files(model_type));
    manager.check_models_existence(names.as_slice(), present)
}

} // verus!

//! The native result records.

use vstd::prelude::*;
use crate::descriptor::Float32;
use crate::enum_variables::ResultType;
use crate::nested::rows_of;
use crate::text::texts_of;

verus! {

/// The labels that a classifier found, with a score for each.
#[derive(Debug, Clone, PartialEq, Eq)]
pub struct ClassifyResult {
    pub label_ids: Vec<i32>,
    pub scores: Vec<Float32>,
    pub type_: ResultType,
}

pub struct ClassifyResultView {
    pub label_ids: Seq<i32>,
    pub scores: Seq<Float32>,
    pub type_: ResultType,
}

impl ClassifyResult {
    /// The result of a classifier from its labels and their scores.
    pub fn build(label_ids: Vec<i32>, scores: Vec<Float32>) -> (r: Self)
        ensures
            r@ == (ClassifyResultView { label_ids: label_ids@, scores: scores@, type_: ResultType::CLASSIFY }),
    {
        Self { label_ids, scores, type_: ResultType::CLASSIFY }
    }
}

impl View for ClassifyResult {
    type V = ClassifyResultView;

    open spec fn view(&self) -> ClassifyResultView {
        ClassifyResultView { label_ids: self.label_ids@, scores: self.scores@, type_: self.type_ }
    }
}

/// A label for every pixel, and a score for every pixel where
/// `contain_score_map` says so.
#[derive(Debug, Clone, PartialEq, Eq)]
pub struct SegmentationResult {
    pub label_map: Vec<u8>,
    pub score_map: Vec<Float32>,
    pub shape: Vec<i64>,
    pub contain_score_map: bool,
    pub type_: ResultType,
}

pub struct SegmentationResultView {
    pub label_map: Seq<u8>,
    pub score_map: Seq<Float32>,
    pub shape: Seq<i64>,
    pub contain_score_map: bool,
    pub type_: ResultType,
}

impl View for SegmentationResult {
    type V = SegmentationResultView;

    open spec fn view(&self) -> SegmentationResultView {
        SegmentationResultView {
            label_map: self.label_map@,
            score_map: self.score_map@,
            shape: self.shape@,
            contain_score_map: self.contain_score_map,
            type_: self.type_,
        }
    }
}

/// The mask of one detected object.
#[derive(Debug, Clone, PartialEq, Eq)]
pub struct Mask {
    pub data: Vec<u8>,
    pub shape: Vec<i64>,
    pub type_: ResultType,
}

pub struct MaskView {
    pub data: Seq<u8>,
    pub shape: Seq<i64>,
    pub type_: ResultType,
}

impl View for Mask {
    type V = MaskView;

    open spec fn view(&self) -> MaskView {
        MaskView { data: self.data@, shape: self.shape@, type_: self.type_ }
    }
}

impl Default for Mask {
    fn default() -> (m: Self)
        ensures
            m@.data.len() == 0,
            m@.shape.len() == 0,
            m@.type_ == ResultType::UNKNOWN_RESULT,
    {
        Self { data: Vec::new(), shape: Vec::new(), type_: ResultType::UNKNOWN_RESULT }
    }
}

/// The masks of a native array of masks.
pub open spec fn masks_of(v: Seq<Mask>) -> Seq<MaskView> {
    Seq::new(v.len(), |i: int| v[i]@)
}

/// The objects that a detector found: a box, a score and a label for each,
/// and a mask for each where `contain_masks` says so.
#[derive(Debug, Clone, PartialEq, Eq)]
pub struct DetectionResult {
    pub boxes: Vec<Vec<Float32>>,
    pub rotated_boxes: Vec<Vec<Float32>>,
    pub scores: Vec<Float32>,
    pub label_ids: Vec<i32>,
    pub masks: Vec<Mask>,
    pub contain_masks: bool,
    pub type_: ResultType,
}

pub struct DetectionResultView {
    pub boxes: Seq<Seq<Float32>>,
    pub rotated_boxes: Seq<Seq<Float32>>,
    pub scores: Seq<Float32>,
    pub label_ids: Seq<i32>,
    pub masks: Seq<MaskView>,
    pub contain_masks: bool,
    pub type_: ResultType,
}

impl View for DetectionResult {
    type V = DetectionResultView;

    open spec fn view(&self) -> DetectionResultView {
        DetectionResultView {
            boxes: rows_of(self.boxes@),
            rotated_boxes: rows_of(self.rotated_boxes@),
            scores: self.scores@,
            label_ids: self.label_ids@,
            masks: masks_of(self.masks@),
            contain_masks: self.contain_masks,
            type_: self.type_,
        }
    }
}

impl Default for DetectionResult {
    fn default() -> (r: Self)
        ensures
            r@.boxes.len() == 0,
            r@.rotated_boxes.len() == 0,
            r@.scores.len() == 0,
            r@.label_ids.len() == 0,
            r@.masks.len() == 0,
            !r@.contain_masks,
            r@.type_ == ResultType::UNKNOWN_RESULT,
    {
        Self {
            boxes: Vec::new(),
            rotated_boxes: Vec::new(),
            scores: Vec::new(),
            label_ids: Vec::new(),
            masks: Vec::new(),
            contain_masks: false,
            type_: ResultType::UNKNOWN_RESULT,
        }
    }
}

/// A text that a recognizer read, with its score.
#[derive(Debug, Clone, PartialEq, Eq)]
pub struct RecognizerResult {
    pub text: String,
    pub score: Float32,
}

impl RecognizerResult {
    pub fn new(text: String, score: Float32) -> (r: Self)
        ensures
            r.text == text,
            r.score == score,
    {
        Self { text, score }
    }
}

/// Pairs every text with the score at the same index; what has no partner
/// is left out.
pub fn zip_recognitions(texts: Vec<String>, scores: Vec<Float32>) -> (r: Vec<RecognizerResult>)
    ensures
        r.len() == if texts.len() <= scores.len() {
            texts.len()
        } else {
            scores.len()
        },
        forall|i: int| 0 <= i < r.len() ==> (#[trigger] r[i]).text@ == texts[i]@ && r[i].score == scores[i],
{
    let n = if texts.len() <= scores.len() {
        texts.len()
    } else {
        scores.len()
    };
    let mut r: Vec<RecognizerResult> = Vec::with_capacity(n);
    let mut i: usize = 0;
    while i < n
        invariant
            i <= n,
            n <= texts.len(),
            n <= scores.len(),
            r.len() == i,
            forall|j: int| 0 <= j < i ==> (#[trigger] r[j]).text@ == texts[j]@ && r[j].score == scores[j],
        decreases n - i,
    {
        r.push(RecognizerResult::new(texts[i].clone(), scores[i]));
        i += 1;
    }
    r
}

/// The texts that were found in an image, with their boxes and scores, and
/// the structure of a table where one was recognized.
#[derive(Debug, Clone, PartialEq, Eq)]
pub struct OCRResult {
    pub boxes: Vec<Vec<i32>>,
    pub text: Vec<String>,
    pub rec_scores: Vec<Float32>,
    pub cls_scores: Vec<Float32>,
    pub cls_labels: Vec<i32>,
    pub table_boxes: Vec<Vec<i32>>,
    pub table_structure: Vec<String>,
    pub table_html: String,
    pub type_: ResultType,
}

pub struct OCRResultView {
    pub boxes: Seq<Seq<i32>>,
    pub text: Seq<Seq<char>>,
    pub rec_scores: Seq<Float32>,
    pub cls_scores: Seq<Float32>,
    pub cls_labels: Seq<i32>,
    pub table_boxes: Seq<Seq<i32>>,
    pub table_structure: Seq<Seq<char>>,
    pub table_html: Seq<char>,
    pub type_: ResultType,
}

impl View for OCRResult {
    type V = OCRResultView;

    open spec fn view(&self) -> OCRResultView {
        OCRResultView {
            boxes: rows_of(self.boxes@),
            text: texts_of(self.text@),
            rec_scores: self.rec_scores@,
            cls_scores: self.cls_scores@,
            cls_labels: self.cls_labels@,
            table_boxes: rows_of(self.table_boxes@),
            table_structure: texts_of(self.table_structure@),
            table_html: self.table_html@,
            type_: self.type_,
        }
    }
}

} // verus!

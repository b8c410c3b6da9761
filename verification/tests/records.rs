use fastdeploy_rs::descriptor::{FlatArray, Float32};
use fastdeploy_rs::detection::{fd_c_two_dim_mask_to_vec_mask, release_masks, vec_mask_to_fd_c_two_dim_mask};
use fastdeploy_rs::enum_variables::ResultType;
use fastdeploy_rs::errors::{DecodeError, Field, OwnershipError, RecordError};
use fastdeploy_rs::heap::{ForeignClassifyResult, ForeignDetectionResult, ForeignMask, Heap};
use fastdeploy_rs::ownership::Side;
use fastdeploy_rs::result::{ClassifyResult, DetectionResult, Mask, OCRResult, RecognizerResult, SegmentationResult};
use fastdeploy_rs::scalar::{dispose, to_foreign};

fn f(x: f32) -> Float32 {
    Float32::from_bits(x.to_bits())
}

fn live(heap: &Heap) -> usize {
    heap.live_blocks().unwrap()
}

fn detection() -> DetectionResult {
    DetectionResult {
        boxes: vec![vec![f(0.0), f(1.0), f(2.0), f(3.0)], vec![f(4.0), f(5.0), f(6.0), f(7.0)]],
        rotated_boxes: vec![],
        scores: vec![f(0.9), f(0.1)],
        label_ids: vec![3, 4],
        masks: vec![
            Mask { data: vec![1, 0, 1], shape: vec![1, 3], type_: ResultType::MASK },
            Mask { data: vec![], shape: vec![0, 0], type_: ResultType::MASK },
        ],
        contain_masks: true,
        type_: ResultType::DETECTION,
    }
}

fn ocr() -> OCRResult {
    OCRResult {
        boxes: vec![vec![0, 0, 10, 0, 10, 5, 0, 5], vec![1, 2, 3, 4, 5, 6, 7, 8]],
        text: vec!["héllo".to_string(), "wörld".to_string()],
        rec_scores: vec![f(0.75), f(0.5)],
        cls_scores: vec![f(1.0)],
        cls_labels: vec![0, 1],
        table_boxes: vec![vec![9, 9]],
        table_structure: vec!["<td>".to_string(), "</td>".to_string()],
        table_html: "<table></table>".to_string(),
        type_: ResultType::OCR,
    }
}

#[test]
fn classify_round_trip() {
    let mut heap = Heap::new();
    let value = ClassifyResult { label_ids: vec![7, 42], scores: vec![f(0.25), f(0.75)], type_: ResultType::CLASSIFY };
    let d = value.build_record(&mut heap);
    assert_eq!(d.type_, 1);
    assert_eq!(d.label_ids.size, 2);
    assert_eq!(d.scores.size, 2);
    assert_eq!(ClassifyResult::decode_record(&heap, &d), Ok(value));
}

#[test]
fn classify_names_the_field_that_failed() {
    let mut heap = Heap::new();
    let (label_ids, _) = to_foreign(&mut heap.int32s.cells, &vec![1]);
    let d = ForeignClassifyResult { label_ids, scores: FlatArray::new(2, Some(40)), type_: 1 };
    assert_eq!(
        ClassifyResult::decode_record(&heap, &d),
        Err(RecordError { field: Field::Scores, cause: DecodeError::SizeMismatch })
    );
    let d = ForeignClassifyResult { label_ids: FlatArray::new(9, label_ids.data), scores: FlatArray::new(2, Some(40)), type_: 1 };
    assert_eq!(
        ClassifyResult::decode_record(&heap, &d),
        Err(RecordError { field: Field::LabelIds, cause: DecodeError::SizeMismatch })
    );
}

#[test]
fn unknown_discriminant_decodes_to_unknown_result() {
    let heap = Heap::new();
    let d = ForeignClassifyResult { label_ids: FlatArray::null(), scores: FlatArray::null(), type_: 77 };
    assert_eq!(
        ClassifyResult::decode_record(&heap, &d),
        Ok(ClassifyResult { label_ids: vec![], scores: vec![], type_: ResultType::UNKNOWN_RESULT })
    );
}

#[test]
fn segmentation_round_trip_with_score_map() {
    let mut heap = Heap::new();
    let value = SegmentationResult {
        label_map: vec![0, 1, 1, 0],
        score_map: vec![f(0.5), f(0.6), f(0.7), f(0.8)],
        shape: vec![2, 2],
        contain_score_map: true,
        type_: ResultType::SEGMENTATION,
    };
    let d = value.build_record(&mut heap);
    assert_eq!(d.contain_score_map, 1);
    assert_eq!(d.type_, 3);
    assert_eq!(SegmentationResult::decode_record(&heap, &d), Ok(value));
}

#[test]
fn segmentation_score_map_is_gated() {
    let mut heap = Heap::new();
    let value = SegmentationResult {
        label_map: vec![1],
        score_map: vec![f(0.5)],
        shape: vec![1, 1],
        contain_score_map: false,
        type_: ResultType::SEGMENTATION,
    };
    let mut d = value.build_record(&mut heap);
    assert_eq!(d.contain_score_map, 0);
    assert_eq!(d.score_map.size, 1);
    let decoded = SegmentationResult::decode_record(&heap, &d).unwrap();
    assert_eq!(decoded.score_map, vec![]);
    assert_eq!(decoded.label_map, vec![1]);
    assert!(!decoded.contain_score_map);
    // a stale descriptor changes nothing while the flag is off
    d.score_map = FlatArray::new(1000, Some(31337));
    assert_eq!(SegmentationResult::decode_record(&heap, &d), Ok(decoded));
    // with the flag on, the stale descriptor is read and refused
    d.contain_score_map = 5;
    assert_eq!(
        SegmentationResult::decode_record(&heap, &d),
        Err(RecordError { field: Field::ScoreMap, cause: DecodeError::SizeMismatch })
    );
}

#[test]
fn detection_round_trip() {
    let mut heap = Heap::new();
    let value = detection();
    let d = value.build_record(&mut heap);
    assert_eq!(d.contain_masks, 1);
    assert_eq!(d.type_, 2);
    assert_eq!(d.boxes.size, 2);
    assert_eq!((d.rotated_boxes.size, d.rotated_boxes.data), (0, None));
    assert_eq!(d.masks.size, 2);
    assert_eq!(DetectionResult::decode_record(&heap, &d), Ok(value));
}

#[test]
fn stale_masks_are_not_read_without_the_flag() {
    let mut heap = Heap::new();
    let mut value = detection();
    value.contain_masks = false;
    let mut d = value.build_record(&mut heap);
    assert_eq!(d.contain_masks, 0);
    // free the masks: the descriptor in the record is now stale
    assert_eq!(release_masks(&mut heap, &d.masks, Side::Native), Ok(()));
    assert!(d.masks.data.is_some());
    assert_eq!(fd_c_two_dim_mask_to_vec_mask(&heap, &d.masks), Err(DecodeError::SizeMismatch));
    let decoded = DetectionResult::decode_record(&heap, &d).unwrap();
    assert_eq!(decoded.masks, vec![]);
    assert_eq!(decoded.boxes, value.boxes);
    assert_eq!(decoded.scores, value.scores);
    assert_eq!(decoded.label_ids, value.label_ids);
    assert!(!decoded.contain_masks);
    // a pointer to nowhere does no harm either
    d.masks = FlatArray::new(3, Some(usize::MAX));
    assert_eq!(DetectionResult::decode_record(&heap, &d), Ok(decoded));
    // once the flag is set the stale pointer is an error, not a read
    d.contain_masks = 1;
    assert_eq!(
        DetectionResult::decode_record(&heap, &d),
        Err(RecordError { field: Field::Masks, cause: DecodeError::SizeMismatch })
    );
}

#[test]
fn detection_default_is_empty() {
    let value = DetectionResult::default();
    assert!(value.boxes.is_empty() && value.rotated_boxes.is_empty() && value.scores.is_empty());
    assert!(value.label_ids.is_empty() && value.masks.is_empty());
    assert!(!value.contain_masks);
    assert_eq!(value.type_, ResultType::UNKNOWN_RESULT);
    let mask = Mask::default();
    assert!(mask.data.is_empty() && mask.shape.is_empty());
    assert_eq!(mask.type_, ResultType::UNKNOWN_RESULT);
    let mut heap = Heap::new();
    let d = value.build_record(&mut heap);
    assert_eq!(live(&heap), 0);
    assert_eq!(DetectionResult::decode_record(&heap, &d), Ok(value));
}

#[test]
fn masks_round_trip() {
    let mut heap = Heap::new();
    let masks = detection().masks;
    let d = vec_mask_to_fd_c_two_dim_mask(&mut heap, &masks);
    assert_eq!(d.size, 2);
    assert_eq!(fd_c_two_dim_mask_to_vec_mask(&heap, &d), Ok(masks.clone()));
    assert_eq!(fd_c_two_dim_mask_to_vec_mask(&heap, &FlatArray::null()), Ok(vec![]));
    let one = masks[0].to_raw_ptr(&mut heap);
    assert_eq!(one.type_, 10);
    assert_eq!(Mask::from_raw(&heap, &one), Ok(masks[0].clone()));
    let broken = ForeignMask { data: one.data, shape: FlatArray::new(3, one.shape.data), type_: 10 };
    assert_eq!(Mask::from_raw(&heap, &broken), Err(DecodeError::SizeMismatch));
    assert_eq!(Mask::release_raw(&mut heap, &one, Side::Native), Ok(()));
    assert_eq!(Mask::release_raw(&mut heap, &one, Side::Native), Err(OwnershipError::NotLive));
}

#[test]
fn detection_is_freed_once() {
    let mut heap = Heap::new();
    let before = live(&heap);
    let value = detection();
    let d = value.build_record(&mut heap);
    // boxes: 2 rows + 1 outer; scores 1; labels 1; masks: data 1 + shapes 2 + outer 1
    assert_eq!(live(&heap), before + 9);
    assert_eq!(DetectionResult::decode_record(&heap, &d), Ok(value));
    assert_eq!(DetectionResult::release_raw_ptr(&mut heap, &d, Side::Native), Ok(()));
    assert_eq!(live(&heap), before);
    assert_eq!(DetectionResult::release_raw_ptr(&mut heap, &d, Side::Native), Err(OwnershipError::NotLive));
    assert_eq!(live(&heap), before);
}

#[test]
fn live_buffers_are_counted_over_the_whole_heap() {
    let mut heap = Heap::new();
    assert_eq!(heap.live_blocks(), Some(0));
    let d = ocr().build_record(&mut heap);
    // boxes 2 + 1, texts 2 + 1, scores 2, labels 1, table boxes 1 + 1, structure 2 + 1, markup 1
    assert_eq!(heap.live_blocks(), Some(15));
    assert_eq!(heap.bytes.live_blocks(), Some(7));
    assert_eq!(heap.int32s.live_blocks(), Some(6));
    assert_eq!(heap.floats.live_blocks(), Some(2));
    assert_eq!(OCRResult::release_raw_ptr(&mut heap, &d, Side::Native), Ok(()));
    assert_eq!(heap.live_blocks(), Some(0));
    assert_eq!(fastdeploy_rs::memory::add_counts(Some(usize::MAX), Some(1)), None);
    assert_eq!(fastdeploy_rs::memory::add_counts(Some(2), Some(3)), Some(5));
    assert_eq!(fastdeploy_rs::memory::add_counts(None, Some(3)), None);
}

#[test]
fn ocr_round_trip() {
    let mut heap = Heap::new();
    let value = ocr();
    let d = value.build_record(&mut heap);
    assert_eq!(d.type_, 4);
    assert_eq!(d.text.size, 2);
    assert_eq!(d.table_html.size, 15);
    assert_eq!(OCRResult::decode_record(&heap, &d), Ok(value));
}

#[test]
fn ocr_reports_invalid_text_with_field_and_offset() {
    let mut heap = Heap::new();
    let value = ocr();
    let mut d = value.build_record(&mut heap);
    let p = heap.bytes.cells.allocate(vec![b'<', 0xff, b'>'], Side::Foreign);
    d.table_html = FlatArray::new(3, Some(p));
    assert_eq!(
        OCRResult::decode_record(&heap, &d),
        Err(RecordError { field: Field::TableHtml, cause: DecodeError::InvalidText { offset: 1, length: Some(1) } })
    );
    let q = heap.bytes.cells.allocate(vec![0xe4, 0xbd], Side::Foreign);
    let r = heap.bytes.rows.allocate(vec![FlatArray::new(2, Some(q))], Side::Foreign);
    d.table_structure = FlatArray::new(1, Some(r));
    assert_eq!(
        OCRResult::decode_record(&heap, &d),
        Err(RecordError { field: Field::TableStructure, cause: DecodeError::InvalidText { offset: 0, length: None } })
    );
    d.text = FlatArray::new(1, Some(r));
    assert_eq!(
        OCRResult::decode_record(&heap, &d),
        Err(RecordError { field: Field::Text, cause: DecodeError::InvalidText { offset: 0, length: None } })
    );
}

#[test]
fn records_are_freed_once() {
    let mut heap = Heap::new();
    let c = ClassifyResult { label_ids: vec![1], scores: vec![f(1.0)], type_: ResultType::CLASSIFY };
    let s = SegmentationResult {
        label_map: vec![1, 2],
        score_map: vec![],
        shape: vec![1, 2],
        contain_score_map: false,
        type_: ResultType::SEGMENTATION,
    };
    let o = ocr();
    let dc = c.build_record(&mut heap);
    let ds = s.build_record(&mut heap);
    let d_o = o.build_record(&mut heap);
    assert_eq!(OCRResult::decode_record(&heap, &d_o), Ok(o));
    assert_eq!(ClassifyResult::release_raw_ptr(&mut heap, &dc, Side::Native), Ok(()));
    assert_eq!(SegmentationResult::release_raw_ptr(&mut heap, &ds, Side::Native), Ok(()));
    assert_eq!(OCRResult::release_raw_ptr(&mut heap, &d_o, Side::Native), Ok(()));
    assert_eq!(live(&heap), 0);
    assert_eq!(ClassifyResult::release_raw_ptr(&mut heap, &dc, Side::Native), Err(OwnershipError::NotLive));
    assert_eq!(SegmentationResult::release_raw_ptr(&mut heap, &ds, Side::Native), Err(OwnershipError::NotLive));
    assert_eq!(OCRResult::release_raw_ptr(&mut heap, &d_o, Side::Native), Err(OwnershipError::NotLive));
}

#[test]
fn a_shared_buffer_cannot_be_freed_twice() {
    let mut heap = Heap::new();
    let (scores, _) = to_foreign(&mut heap.floats.cells, &vec![f(1.0)]);
    let d = ForeignDetectionResult {
        boxes: FlatArray::null(),
        rotated_boxes: FlatArray::null(),
        scores,
        label_ids: FlatArray::null(),
        masks: FlatArray::null(),
        contain_masks: 0,
        type_: 2,
    };
    assert_eq!(dispose(&mut heap.floats.cells, &scores, Side::Native), Ok(()));
    assert_eq!(DetectionResult::release_raw_ptr(&mut heap, &d, Side::Native), Err(OwnershipError::NotLive));
}

#[test]
fn recognizer_result_holds_text_and_score() {
    let r = RecognizerResult::new("abc".to_string(), f(0.5));
    assert_eq!(r.text, "abc");
    assert_eq!(f32::from_bits(r.score.to_bits()), 0.5);
}

#[test]
fn texts_and_scores_are_paired_by_index() {
    let r = fastdeploy_rs::result::zip_recognitions(
        vec!["a".to_string(), "b".to_string(), "c".to_string()],
        vec![f(0.1), f(0.2)],
    );
    assert_eq!(
        r,
        vec![RecognizerResult::new("a".to_string(), f(0.1)), RecognizerResult::new("b".to_string(), f(0.2))]
    );
    assert_eq!(fastdeploy_rs::result::zip_recognitions(vec![], vec![f(0.1)]), vec![]);
    let c = ClassifyResult::build(vec![3], vec![f(0.5)]);
    assert_eq!(c, ClassifyResult { label_ids: vec![3], scores: vec![f(0.5)], type_: ResultType::CLASSIFY });
}

fn field_of<T: std::fmt::Debug>(r: Result<T, RecordError>) -> Field {
    r.unwrap_err().field
}

#[test]
fn every_field_is_named_when_it_fails() {
    let mut heap = Heap::new();
    let stale = Some(usize::MAX);

    let d = detection().build_record(&mut heap);
    let mut bad = d;
    bad.boxes = FlatArray::new(2, stale);
    assert_eq!(field_of(DetectionResult::decode_record(&heap, &bad)), Field::Boxes);
    let mut bad = d;
    bad.rotated_boxes = FlatArray::new(2, stale);
    assert_eq!(field_of(DetectionResult::decode_record(&heap, &bad)), Field::RotatedBoxes);
    let mut bad = d;
    bad.scores = FlatArray::new(2, stale);
    assert_eq!(field_of(DetectionResult::decode_record(&heap, &bad)), Field::Scores);
    let mut bad = d;
    bad.label_ids = FlatArray::new(2, stale);
    assert_eq!(field_of(DetectionResult::decode_record(&heap, &bad)), Field::LabelIds);
    let mut bad = d;
    bad.masks = FlatArray::new(2, stale);
    assert_eq!(field_of(DetectionResult::decode_record(&heap, &bad)), Field::Masks);
    // the first field that fails is the one that is named
    bad.scores = FlatArray::new(2, stale);
    assert_eq!(field_of(DetectionResult::decode_record(&heap, &bad)), Field::Scores);

    let s = SegmentationResult {
        label_map: vec![1],
        score_map: vec![f(0.5)],
        shape: vec![1, 1],
        contain_score_map: true,
        type_: ResultType::SEGMENTATION,
    }
    .build_record(&mut heap);
    let mut bad = s;
    bad.label_map = FlatArray::new(2, stale);
    assert_eq!(field_of(SegmentationResult::decode_record(&heap, &bad)), Field::LabelMap);
    let mut bad = s;
    bad.score_map = FlatArray::new(2, stale);
    assert_eq!(field_of(SegmentationResult::decode_record(&heap, &bad)), Field::ScoreMap);
    let mut bad = s;
    bad.shape = FlatArray::new(2, stale);
    assert_eq!(field_of(SegmentationResult::decode_record(&heap, &bad)), Field::Shape);

    let o = ocr().build_record(&mut heap);
    let mut bad = o;
    bad.boxes = FlatArray::new(2, stale);
    assert_eq!(field_of(OCRResult::decode_record(&heap, &bad)), Field::Boxes);
    let mut bad = o;
    bad.text = FlatArray::new(2, stale);
    assert_eq!(field_of(OCRResult::decode_record(&heap, &bad)), Field::Text);
    let mut bad = o;
    bad.rec_scores = FlatArray::new(2, stale);
    assert_eq!(field_of(OCRResult::decode_record(&heap, &bad)), Field::RecScores);
    let mut bad = o;
    bad.cls_scores = FlatArray::new(2, stale);
    assert_eq!(field_of(OCRResult::decode_record(&heap, &bad)), Field::ClsScores);
    let mut bad = o;
    bad.cls_labels = FlatArray::new(2, stale);
    assert_eq!(field_of(OCRResult::decode_record(&heap, &bad)), Field::ClsLabels);
    let mut bad = o;
    bad.table_boxes = FlatArray::new(2, stale);
    assert_eq!(field_of(OCRResult::decode_record(&heap, &bad)), Field::TableBoxes);
    let mut bad = o;
    bad.table_structure = FlatArray::new(2, stale);
    assert_eq!(field_of(OCRResult::decode_record(&heap, &bad)), Field::TableStructure);
    let mut bad = o;
    bad.table_html = FlatArray::new(2, stale);
    assert_eq!(field_of(OCRResult::decode_record(&heap, &bad)), Field::TableHtml);
}

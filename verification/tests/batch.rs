use fastdeploy_rs::descriptor::{FlatArray, Float32};
use fastdeploy_rs::enum_variables::ResultType;
use fastdeploy_rs::errors::{BatchError, DecodeError, Field, OwnershipError};
use fastdeploy_rs::heap::{ForeignOCRResult, Heap};
use fastdeploy_rs::ownership::Side;
use fastdeploy_rs::result::{ClassifyResult, DetectionResult, Mask, OCRResult, SegmentationResult};
use fastdeploy_rs::scalar::copy_from_foreign;

fn f(x: f32) -> Float32 {
    Float32::from_bits(x.to_bits())
}

fn ocr(text: &str) -> OCRResult {
    OCRResult {
        boxes: vec![vec![1, 2, 3, 4]],
        text: vec![text.to_string()],
        rec_scores: vec![f(0.5)],
        cls_scores: vec![],
        cls_labels: vec![],
        table_boxes: vec![],
        table_structure: vec![],
        table_html: String::new(),
        type_: ResultType::OCR,
    }
}

#[test]
fn classify_batch_round_trip() {
    let mut heap = Heap::new();
    let values = vec![
        ClassifyResult { label_ids: vec![1], scores: vec![f(0.5)], type_: ResultType::CLASSIFY },
        ClassifyResult { label_ids: vec![], scores: vec![], type_: ResultType::CLASSIFY },
        ClassifyResult { label_ids: vec![2, 3], scores: vec![f(0.1), f(0.2)], type_: ResultType::UNKNOWN_RESULT },
    ];
    let d = ClassifyResult::build_batch(&mut heap, &values);
    assert_eq!(d.size, 3);
    assert_eq!(ClassifyResult::decode_batch(&heap, &d), Ok(values));
    let none = ClassifyResult::build_batch(&mut heap, &vec![]);
    assert_eq!((none.size, none.data), (0, None));
    assert_eq!(ClassifyResult::decode_batch(&heap, &none), Ok(vec![]));
}

#[test]
fn segmentation_and_detection_batches_round_trip() {
    let mut heap = Heap::new();
    let segs = vec![
        SegmentationResult {
            label_map: vec![0, 1],
            score_map: vec![f(0.5), f(0.25)],
            shape: vec![1, 2],
            contain_score_map: true,
            type_: ResultType::SEGMENTATION,
        },
        SegmentationResult {
            label_map: vec![2],
            score_map: vec![],
            shape: vec![1, 1],
            contain_score_map: false,
            type_: ResultType::SEGMENTATION,
        },
    ];
    let d = SegmentationResult::build_batch(&mut heap, &segs);
    assert_eq!(SegmentationResult::decode_batch(&heap, &d), Ok(segs));
    let dets = vec![
        DetectionResult::default(),
        DetectionResult {
            boxes: vec![vec![f(1.0), f(2.0), f(3.0), f(4.0)]],
            rotated_boxes: vec![vec![f(1.0); 8]],
            scores: vec![f(0.5)],
            label_ids: vec![9],
            masks: vec![Mask { data: vec![255], shape: vec![1, 1], type_: ResultType::MASK }],
            contain_masks: true,
            type_: ResultType::DETECTION,
        },
    ];
    let d = DetectionResult::build_batch(&mut heap, &dets);
    assert_eq!(DetectionResult::decode_batch(&heap, &d), Ok(dets));
    assert_eq!(DetectionResult::release_batch(&mut heap, &d, Side::Native), Ok(()));
    assert_eq!(heap.detection.live_blocks(), 0);
    assert_eq!(heap.masks.live_blocks(), 0);
    // what is left belongs to the batch of segmentation results
    assert_eq!(heap.floats.cells.live_blocks(), 1);
    assert_eq!(heap.floats.rows.live_blocks(), 0);
    assert_eq!(DetectionResult::release_batch(&mut heap, &d, Side::Native), Err(OwnershipError::NotLive));
}

#[test]
fn a_bad_row_is_named_and_the_others_are_untouched() {
    let mut heap = Heap::new();
    let values = vec![ocr("zero"), ocr("one"), ocr("two")];
    let d = OCRResult::build_batch(&mut heap, &values);
    let mut records: Vec<ForeignOCRResult> = copy_from_foreign(&heap.ocr, &d).unwrap();
    // the text of row 1 is replaced by bytes that are no text
    let bad = heap.bytes.cells.allocate(vec![b'o', b'n', 0xe9], Side::Foreign);
    let row = heap.bytes.rows.allocate(vec![FlatArray::new(3, Some(bad))], Side::Foreign);
    records[1].text = FlatArray::new(1, Some(row));
    let p = heap.ocr.allocate(records.clone(), Side::Foreign);
    let broken = FlatArray::new(3, Some(p));
    assert_eq!(
        OCRResult::decode_batch(&heap, &broken),
        Err(BatchError::Row {
            row: 1,
            field: Field::Text,
            cause: DecodeError::InvalidText { offset: 2, length: None },
        })
    );
    // rows 0 and 2 decode as before
    assert_eq!(OCRResult::decode_record(&heap, &records[0]), Ok(ocr("zero")));
    assert_eq!(OCRResult::decode_record(&heap, &records[2]), Ok(ocr("two")));
    assert_eq!(OCRResult::decode_batch(&heap, &FlatArray::new(1, Some(p))), Ok(vec![ocr("zero")]));
    // and the batch that was built is as it was
    assert_eq!(OCRResult::decode_batch(&heap, &d), Ok(values));
}

#[test]
fn the_first_bad_row_decides() {
    let mut heap = Heap::new();
    let values = vec![ocr("a"), ocr("b"), ocr("c")];
    let d = OCRResult::build_batch(&mut heap, &values);
    let mut records: Vec<ForeignOCRResult> = copy_from_foreign(&heap.ocr, &d).unwrap();
    records[1].boxes = FlatArray::new(4, Some(1234));
    records[2].rec_scores = FlatArray::new(4, Some(1234));
    let p = heap.ocr.allocate(records, Side::Foreign);
    assert_eq!(
        OCRResult::decode_batch(&heap, &FlatArray::new(3, Some(p))),
        Err(BatchError::Row { row: 1, field: Field::Boxes, cause: DecodeError::SizeMismatch })
    );
}

#[test]
fn a_batch_that_cannot_be_read() {
    let mut heap = Heap::new();
    let d = OCRResult::build_batch(&mut heap, &vec![ocr("x")]);
    let longer = FlatArray::new(2, d.data);
    assert_eq!(
        OCRResult::decode_batch(&heap, &longer),
        Err(BatchError::Records { cause: DecodeError::SizeMismatch })
    );
    assert_eq!(OCRResult::release_batch(&mut heap, &longer, Side::Native), Err(OwnershipError::SizeMismatch));
    assert_eq!(OCRResult::release_batch(&mut heap, &d, Side::Foreign), Err(OwnershipError::NotOwner));
    assert_eq!(OCRResult::release_batch(&mut heap, &d, Side::Native), Ok(()));
    assert_eq!(heap.ocr.live_blocks(), 0);
    assert_eq!(heap.bytes.cells.live_blocks(), 0);
    assert_eq!(heap.bytes.rows.live_blocks(), 0);
    assert_eq!(heap.int32s.cells.live_blocks(), 0);
    assert_eq!(heap.int32s.rows.live_blocks(), 0);
    assert_eq!(heap.floats.cells.live_blocks(), 0);
    assert_eq!(
        OCRResult::decode_batch(&heap, &d),
        Err(BatchError::Records { cause: DecodeError::SizeMismatch })
    );
}

#[test]
fn classify_and_segmentation_batches_are_freed_once() {
    let mut heap = Heap::new();
    let c = vec![ClassifyResult { label_ids: vec![1], scores: vec![f(0.5)], type_: ResultType::CLASSIFY }];
    let s = vec![SegmentationResult {
        label_map: vec![1],
        score_map: vec![f(0.5)],
        shape: vec![1, 1],
        contain_score_map: false,
        type_: ResultType::SEGMENTATION,
    }];
    let dc = ClassifyResult::build_batch(&mut heap, &c);
    let ds = SegmentationResult::build_batch(&mut heap, &s);
    assert_eq!(ClassifyResult::release_batch(&mut heap, &dc, Side::Native), Ok(()));
    assert_eq!(SegmentationResult::release_batch(&mut heap, &ds, Side::Native), Ok(()));
    assert_eq!(heap.classify.live_blocks() + heap.segmentation.live_blocks(), 0);
    assert_eq!(heap.int32s.cells.live_blocks() + heap.floats.cells.live_blocks(), 0);
    assert_eq!(heap.bytes.cells.live_blocks() + heap.int64s.cells.live_blocks(), 0);
    assert_eq!(ClassifyResult::release_batch(&mut heap, &dc, Side::Native), Err(OwnershipError::NotLive));
    assert_eq!(SegmentationResult::release_batch(&mut heap, &ds, Side::Native), Err(OwnershipError::NotLive));
}

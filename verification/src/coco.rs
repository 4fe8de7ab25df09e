//! The classes the object model can report.
use vstd::prelude::*;

use crate::text::str_eq;

verus! {

/// The 80 COCO class names, in the order the object model numbers them.
pub const COCO_CLASSES: [&'static str; 80] = [
    "person", "bicycle", "car", "motorcycle", "airplane", "bus", "train", "truck", "boat",
    "traffic light", "fire hydrant", "stop sign", "parking meter", "bench", "bird", "cat", "dog",
    "horse", "sheep", "cow", "elephant", "bear", "zebra", "giraffe", "backpack", "umbrella",
    "handbag", "tie", "suitcase", "frisbee", "skis", "snowboard", "sports ball", "kite",
    "baseball bat", "baseball glove", "skateboard", "surfboard", "tennis racket", "bottle",
    "wine glass", "cup", "fork", "knife", "spoon", "bowl", "banana", "apple", "sandwich", "orange",
    "broccoli", "carrot", "hot dog", "pizza", "donut", "cake", "chair", "couch", "potted plant",
    "bed", "dining table", "toilet", "tv", "laptop", "mouse", "remote", "keyboard", "cell phone",
    "microwave", "oven", "toaster", "sink", "refrigerator", "book", "clock", "vase", "scissors",
    "teddy bear", "hair drier", "toothbrush",
];

/// `name` is one of the classes the object model can produce.
pub open spec fn is_coco_class(name: Seq<char>) -> bool {
    exists|i: int| 0 <= i < 80 && #[trigger] COCO_CLASSES@[i]@ == name
}

/// Whether `name` is one of the classes the object model can produce.
pub fn coco_contains(name: &str) -> (b: bool)
    ensures
        b == is_coco_class(name@),
        b <==> exists|i: int| 0 <= i < 80 && #[trigger] COCO_CLASSES@[i]@ == name@,
{
    let mut i: usize = 0;
    while i < 80
        invariant
            i <= 80,
            forall|k: int| 0 <= k < i ==> #[trigger] COCO_CLASSES@[k]@ != name@,
        decreases 80 - i,
    {
        if str_eq(COCO_CLASSES[i], name) {
            return true;
        }
        i = i + 1;
    }
    false
}

/// A name is a class only by being one of the entries, character for
/// character: a name that is merely part of an entry (as "phone" is of
/// "cell phone") is none.
pub proof fn lemma_class_is_an_exact_entry(name: Seq<char>)
    ensures
        is_coco_class(name) <==> exists|i: int| 0 <= i < 80 && #[trigger] COCO_CLASSES@[i]@ == name,
{
}

} // verus!

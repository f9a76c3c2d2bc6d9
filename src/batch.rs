use vstd::prelude::*;
use vstd::string::StrSliceExecFns;
use crate::annotation::{read_points, record_points};
use crate::geometry::{Point, bounding_box, box_of, can_bound, geometry_string, padding_fits};
use crate::text::{decimal, push_decimal, push_zero_padded, zero_padded};

verus! {

/// Why one image of a batch was skipped.
#[derive(PartialEq, Eq, Structural, Clone, Copy, Debug)]
pub enum ItemError {
    /// The annotation file could not be opened or read.
    AnnotationNotFound,
    /// The annotation holds no readable landmark point.
    NoLandmarks,
    /// The padded rectangle around the points does not fit in a `usize`.
    OutOfRange,
}

/// The four thumbnail sizes made of each image, largest first.
pub open spec fn output_sizes() -> Seq<usize> {
    seq![200usize, 96usize, 48usize, 24usize]
}

/// The path `{destination_dir}/{index:08}-{size}.jpg` of one thumbnail.
pub open spec fn output_path_of(destination_dir: Seq<char>, index: nat, size: nat) -> Seq<char> {
    destination_dir + seq!['/'] + zero_padded(decimal(index), 8) + seq!['-'] + decimal(size)
        + seq!['.', 'j', 'p', 'g']
}

/// What is done with one image whose annotation was read: the crop geometry
/// handed to the image tool, and each thumbnail size with its path.
#[derive(Debug)]
pub struct ItemPlan {
    pub crop: String,
    pub outputs: Vec<(usize, String)>,
}

/// Whether `plan` crops the square of `points` and writes the four
/// thumbnails of the image numbered `index` into `destination_dir`.
pub open spec fn is_plan_for(plan: ItemPlan, points: Seq<Point>, destination_dir: Seq<char>, index: nat) -> bool {
    &&& plan.crop@ == geometry_string(box_of(points))
    &&& plan.outputs@.len() == 4
    &&& forall|k: int|
        0 <= k < 4 ==> (#[trigger] plan.outputs@[k]).0 == output_sizes()[k] && plan.outputs@[k].1@
            == output_path_of(destination_dir, index, output_sizes()[k] as nat)
}

/// Whether a file extension marks an image of the corpus: exactly `jpg`.
pub fn is_corpus_image(extension: &str) -> (r: bool)
    ensures
        r == (extension@ == seq!['j', 'p', 'g']),
{
    if extension.unicode_len() != 3 {
        return false;
    }
    let r = extension.get_char(0) == 'j' && extension.get_char(1) == 'p' && extension.get_char(2) == 'g';
    proof {
        if r {
            assert(extension@ =~= seq!['j', 'p', 'g']);
        }
    }
    r
}

/// The path of the thumbnail of `size` pixels for the image numbered `index`.
pub fn output_path(destination_dir: &str, index: usize, size: usize) -> (r: String)
    ensures
        r@ == output_path_of(destination_dir@, index as nat, size as nat),
{
    let mut out = String::from_str(destination_dir);
    out.append("/");
    push_zero_padded(&mut out, index, 8);
    out.append("-");
    push_decimal(&mut out, size);
    out.append(".jpg");
    proof {
        reveal_strlit("/");
        reveal_strlit("-");
        reveal_strlit(".jpg");
        assert(out@ =~= output_path_of(destination_dir@, index as nat, size as nat));
    }
    out
}

/// Plans the work on one image from the text of its annotation: the crop
/// square of its landmark points, and the four thumbnails numbered `index`.
pub fn plan_item(annotation: String, destination_dir: &str, index: usize) -> (r: Result<ItemPlan, ItemError>)
    ensures
        record_points(annotation@).len() == 0 ==> r == Err::<ItemPlan, ItemError>(ItemError::NoLandmarks),
        record_points(annotation@).len() > 0 && !padding_fits(record_points(annotation@))
            ==> r == Err::<ItemPlan, ItemError>(ItemError::OutOfRange),
        record_points(annotation@).len() > 0 && padding_fits(record_points(annotation@)) ==> (r matches Ok(
            plan) && is_plan_for(plan, record_points(annotation@), destination_dir@, index as nat)),
{
    let points = read_points(annotation);
    if points.len() == 0 {
        return Err(ItemError::NoLandmarks);
    }
    if !can_bound(&points) {
        return Err(ItemError::OutOfRange);
    }
    let crop = bounding_box(points).to_string();
    let sizes: [usize; 4] = [200, 96, 48, 24];
    let mut outputs: Vec<(usize, String)> = Vec::new();
    let mut k: usize = 0;
    while k < 4
        invariant
            k <= 4,
            sizes@ == output_sizes(),
            outputs@.len() == k,
            forall|j: int|
                0 <= j < k ==> (#[trigger] outputs@[j]).0 == output_sizes()[j] && outputs@[j].1@
                    == output_path_of(destination_dir@, index as nat, output_sizes()[j] as nat),
        decreases 4 - k,
    {
        let size = sizes[k];
        outputs.push((size, output_path(destination_dir, index, size)));
        k = k + 1;
    }
    Ok(ItemPlan { crop, outputs })
}

/// The number of successes among the outcomes.
pub open spec fn successes(outcomes: Seq<bool>) -> nat
    decreases outcomes.len(),
{
    if outcomes.len() == 0 {
        0
    } else {
        successes(outcomes.drop_last()) + if outcomes.last() { 1nat } else { 0nat }
    }
}

/// The next free index after an item with this outcome.
pub open spec fn index_after(index: int, succeeded: bool) -> int {
    if succeeded { index + 1 } else { index }
}

/// The next free index after a run of items with these outcomes.
pub open spec fn index_after_run(start: int, outcomes: Seq<bool>) -> int
    decreases outcomes.len(),
{
    if outcomes.len() == 0 {
        start
    } else {
        index_after(index_after_run(start, outcomes.drop_last()), outcomes.last())
    }
}

/// The numbering of a batch: the index that the next successful image takes.
pub struct Batch {
    pub next_index: usize,
}

impl Batch {
    pub fn new(start: usize) -> (r: Batch)
        ensures
            r.next_index == start,
    {
        Batch { next_index: start }
    }

    /// The index that the item now being processed writes its files under.
    pub fn index(&self) -> (r: usize)
        ensures
            r == self.next_index,
    {
        self.next_index
    }

    /// Records the outcome of the item now being processed: a success takes
    /// its index, a failure leaves it to the next item.
    pub fn record(&mut self, succeeded: bool)
        requires
            succeeded ==> old(self).next_index < usize::MAX,
        ensures
            final(self).next_index == index_after(old(self).next_index as int, succeeded),
    {
        if succeeded {
            self.next_index = self.next_index + 1;
        }
    }
}

/// Over any run of items, the item at position `j` is numbered `start` plus
/// the number of successes before it: failed items take no index, and the
/// successful ones are numbered densely from `start`.
pub proof fn lemma_dense_indices(start: int, outcomes: Seq<bool>)
    ensures
        forall|j: int|
            0 <= j <= outcomes.len() ==> #[trigger] index_after_run(start, outcomes.take(j)) == start
                + successes(outcomes.take(j)),
    decreases outcomes.len(),
{
    if outcomes.len() > 0 {
        let init = outcomes.drop_last();
        lemma_dense_indices(start, init);
        assert forall|j: int| 0 <= j <= outcomes.len() implies #[trigger] index_after_run(
            start,
            outcomes.take(j),
        ) == start + successes(outcomes.take(j)) by {
            if j < outcomes.len() {
                assert(outcomes.take(j) == init.take(j));
            } else {
                assert(outcomes.take(j) == outcomes);
                assert(init.take(init.len() as int) == init);
                assert(index_after_run(start, init.take(init.len() as int)) == start + successes(
                    init.take(init.len() as int),
                ));
            }
        }
    } else {
        assert(outcomes.take(0) == outcomes);
    }
}

} // verus!

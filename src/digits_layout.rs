use vstd::prelude::*;

verus! {

/// Bytes before the first image of an image archive.
pub const IMAGE_HEADER: usize = 16;

/// Bytes before the first label of a label archive.
pub const LABEL_HEADER: usize = 8;

/// Pixels of one 28 x 28 digit image.
pub const IMAGE_SIZE: usize = 784;

/// Number of digit classes; a label is below it.
pub const CLASS_COUNT: usize = 10;

/// Images that the digit network trains on, taken from the front of the archive.
pub const TRAIN_COUNT: usize = 50000;

/// Images that the digit network is evaluated on, right after the training ones.
pub const TEST_COUNT: usize = 10000;

/// Width of the first hidden layer of the digit network.
pub const HIDDEN_FIRST: usize = 100;

/// Width of the second hidden layer of the digit network.
pub const HIDDEN_SECOND: usize = 45;

/// Training epochs of the digit network.
pub const EPOCHS: usize = 50;

/// Points per batch when the digit network trains.
pub const BATCH_SIZE: usize = 10;

/// How a pair of archives is read: images of `image_size` bytes, the first
/// `train_count` items for training and the next `test_count` for testing.
#[derive(Debug, Clone, Copy, PartialEq, Eq, Structural)]
pub struct ArchiveLayout {
    pub image_size: usize,
    pub train_count: usize,
    pub test_count: usize,
}

/// One archive item: the grey levels of its pixels and its class.
#[derive(Debug, PartialEq, Eq)]
pub struct DigitSample {
    pub pixels: Vec<u8>,
    pub label: u8,
}

/// Why a pair of archives could not be read.
#[derive(Debug, Clone, Copy, PartialEq, Eq, Structural)]
pub enum LoadError {
    /// The image archive, of `found` bytes, does not hold all the images.
    ImagesTooShort { found: usize },
    /// The label archive, of `found` bytes, does not hold all the labels.
    LabelsTooShort { found: usize },
    /// Item `index` carries `label`, which names no class.
    LabelOutOfRange { index: usize, label: u8 },
}

/// The data and settings of a training run of the digit network.
#[derive(Debug)]
pub struct DigitsTask {
    pub layer_sizes: Vec<usize>,
    pub epochs: usize,
    pub batch_size: usize,
    pub training: Vec<DigitSample>,
    pub testing: Vec<DigitSample>,
}

pub open spec fn item_count(l: ArchiveLayout) -> nat {
    (l.train_count + l.test_count) as nat
}

pub open spec fn images_needed(l: ArchiveLayout) -> nat {
    (IMAGE_HEADER + item_count(l) * l.image_size) as nat
}

pub open spec fn labels_needed(l: ArchiveLayout) -> nat {
    (LABEL_HEADER + item_count(l)) as nat
}

/// The pixels of item `k` of an image archive.
pub open spec fn item_pixels(images: Seq<u8>, l: ArchiveLayout, k: nat) -> Seq<u8> {
    images.subrange(
        IMAGE_HEADER + k * l.image_size,
        IMAGE_HEADER + (k + 1) * l.image_size,
    )
}

/// The label of item `k` of a label archive.
pub open spec fn item_label(labels: Seq<u8>, k: nat) -> u8 {
    labels[LABEL_HEADER + k]
}

/// Both archives hold every item of the layout, and every label names a class.
pub open spec fn valid_archives(images: Seq<u8>, labels: Seq<u8>, l: ArchiveLayout) -> bool {
    &&& images.len() >= images_needed(l)
    &&& labels.len() >= labels_needed(l)
    &&& forall|k: nat| k < item_count(l) ==> #[trigger] item_label(labels, k) < CLASS_COUNT
}

/// `s` is item `k` of the archives.
pub open spec fn is_item(s: DigitSample, images: Seq<u8>, labels: Seq<u8>, l: ArchiveLayout, k: nat) -> bool {
    &&& s.pixels@ == item_pixels(images, l, k)
    &&& s.label == item_label(labels, k)
}

/// `training` holds the first `train_count` items in order, `testing` the next
/// `test_count`.
pub open spec fn split_items(
    images: Seq<u8>,
    labels: Seq<u8>,
    l: ArchiveLayout,
    training: Seq<DigitSample>,
    testing: Seq<DigitSample>,
) -> bool {
    &&& training.len() == l.train_count
    &&& testing.len() == l.test_count
    &&& forall|k: int| 0 <= k < training.len() ==> is_item(#[trigger] training[k], images, labels, l, k as nat)
    &&& forall|k: int|
        0 <= k < testing.len() ==> is_item(#[trigger] testing[k], images, labels, l, (l.train_count + k) as nat)
}

/// `e` is the first fault met when the archives are read: the images are
/// checked first, then the labels' length, then the labels in item order.
pub open spec fn first_fault(images: Seq<u8>, labels: Seq<u8>, l: ArchiveLayout, e: LoadError) -> bool {
    match e {
        LoadError::ImagesTooShort { found } => found == images.len() && images.len() < images_needed(l),
        LoadError::LabelsTooShort { found } => {
            &&& images.len() >= images_needed(l)
            &&& found == labels.len()
            &&& labels.len() < labels_needed(l)
        },
        LoadError::LabelOutOfRange { index, label } => {
            &&& images.len() >= images_needed(l)
            &&& labels.len() >= labels_needed(l)
            &&& index < item_count(l)
            &&& label == item_label(labels, index as nat)
            &&& label >= CLASS_COUNT
            &&& forall|j: nat| j < index ==> #[trigger] item_label(labels, j) < CLASS_COUNT
        },
    }
}

/// The layout of the digit archives.
pub open spec fn digits_layout() -> ArchiveLayout {
    ArchiveLayout { image_size: IMAGE_SIZE, train_count: TRAIN_COUNT, test_count: TEST_COUNT }
}

/// Whether `count` items of `size` bytes fit in `room` bytes.
fn items_fit(count_a: usize, count_b: usize, size: usize, room: usize) -> (r: bool)
    ensures
        r == ((count_a + count_b) * size <= room),
{
    if size == 0 {
        return true;
    }
    let cap = room / size;
    proof {
        lemma_fits_iff(count_a as nat + count_b as nat, size as nat, room as nat);
    }
    count_a <= cap && count_b <= cap - count_a
}

proof fn lemma_fits_iff(x: nat, size: nat, room: nat)
    requires
        size > 0,
    ensures
        (x * size <= room) <==> (x <= room / size),
{
    vstd::arithmetic::div_mod::lemma_fundamental_div_mod(room as int, size as int);
    vstd::arithmetic::div_mod::lemma_mod_bound(room as int, size as int);
    if x <= room / size {
        assert(x * size <= size * (room / size)) by (nonlinear_arith)
            requires
                x <= room / size,
        ;
    }
    if x * size <= room && x > room / size {
        let q = room / size;
        assert(x * size >= (q + 1) * size) by (nonlinear_arith)
            requires
                x >= q + 1,
        ;
        assert((q + 1) * size == size * q + size) by (nonlinear_arith);
        assert(false);
    }
}

proof fn lemma_item_in_bounds(k: nat, count: nat, size: nat)
    requires
        k < count,
    ensures
        k * size + size == (k + 1) * size,
        (k + 1) * size <= count * size,
{
    assert((k + 1) * size <= count * size) by (nonlinear_arith)
        requires
            k + 1 <= count,
    ;
    assert(k * size + size == (k + 1) * size) by (nonlinear_arith);
}

/// Reads `count` items from item `first` on; the labels are known to be in range.
fn read_items(
    images: &Vec<u8>,
    labels: &Vec<u8>,
    l: ArchiveLayout,
    first: usize,
    count: usize,
) -> (r: Vec<DigitSample>)
    requires
        first + count <= item_count(l),
        images@.len() >= images_needed(l),
        labels@.len() >= labels_needed(l),
    ensures
        r@.len() == count,
        forall|k: int| 0 <= k < count ==> is_item(#[trigger] r@[k], images@, labels@, l, (first + k) as nat),
{
    let size = l.image_size;
    let image_bytes = images.len();
    let label_bytes = labels.len();
    let mut items: Vec<DigitSample> = Vec::new();
    let mut k: usize = 0;
    while k < count
        invariant
            first + count <= item_count(l),
            images@.len() >= images_needed(l),
            labels@.len() >= labels_needed(l),
            size == l.image_size,
            image_bytes == images@.len(),
            label_bytes == labels@.len(),
            k <= count,
            items@.len() == k,
            forall|j: int| 0 <= j < k ==> is_item(#[trigger] items@[j], images@, labels@, l, (first + j) as nat),
        decreases count - k,
    {
        let item = first + k;
        proof {
            lemma_item_in_bounds(item as nat, item_count(l), size as nat);
        }
        let start = IMAGE_HEADER + item * size;
        let end = start + size;
        let mut pixels: Vec<u8> = Vec::new();
        let mut p: usize = start;
        while p < end
            invariant
                start <= p <= end,
                end <= images@.len(),
                pixels@ == images@.subrange(start as int, p as int),
            decreases end - p,
        {
            pixels.push(images[p]);
            p += 1;
            assert(pixels@ =~= images@.subrange(start as int, p as int));
        }
        let label = labels[LABEL_HEADER + item];
        items.push(DigitSample { pixels, label });
        k += 1;
    }
    items
}

/// Reads the items of an image archive and a label archive laid out as `l`,
/// and splits them into the training items and the testing items that follow.
pub fn load_digits(images: &Vec<u8>, labels: &Vec<u8>, l: ArchiveLayout) -> (r: Result<
    (Vec<DigitSample>, Vec<DigitSample>),
    LoadError,
>)
    ensures
        r is Ok <==> valid_archives(images@, labels@, l),
        r matches Ok((training, testing)) ==> split_items(images@, labels@, l, training@, testing@),
        r matches Err(e) ==> first_fault(images@, labels@, l, e),
{
    if images.len() < IMAGE_HEADER || !items_fit(
        l.train_count,
        l.test_count,
        l.image_size,
        images.len() - IMAGE_HEADER,
    ) {
        proof {
            if images@.len() < IMAGE_HEADER {
                assert(images_needed(l) >= IMAGE_HEADER) by (nonlinear_arith)
                    requires
                        images_needed(l) == IMAGE_HEADER + item_count(l) * l.image_size,
                ;
            }
        }
        return Err(LoadError::ImagesTooShort { found: images.len() });
    }
    if labels.len() < LABEL_HEADER || l.train_count > labels.len() - LABEL_HEADER || l.test_count
        > labels.len() - LABEL_HEADER - l.train_count {
        return Err(LoadError::LabelsTooShort { found: labels.len() });
    }
    let total = l.train_count + l.test_count;
    let label_bytes = labels.len();
    let mut k: usize = 0;
    while k < total
        invariant
            total == item_count(l),
            label_bytes == labels@.len(),
            images@.len() >= images_needed(l),
            labels@.len() >= labels_needed(l),
            k <= total,
            forall|j: nat| j < k ==> #[trigger] item_label(labels@, j) < CLASS_COUNT,
        decreases total - k,
    {
        let label = labels[LABEL_HEADER + k];
        if label as usize >= CLASS_COUNT {
            assert(item_label(labels@, k as nat) >= CLASS_COUNT);
            return Err(LoadError::LabelOutOfRange { index: k, label });
        }
        k += 1;
    }
    let training = read_items(images, labels, l, 0, l.train_count);
    let testing = read_items(images, labels, l, l.train_count, l.test_count);
    Ok((training, testing))
}

/// Reads the digit archives: 28 x 28 images, the first 50000 items for
/// training and the next 10000 for testing, for a network of layers 784, 100,
/// 45 and 10 trained 50 epochs in batches of 10.
pub fn train_network_digits(images: &Vec<u8>, labels: &Vec<u8>) -> (r: Result<DigitsTask, LoadError>)
    ensures
        r is Ok <==> valid_archives(images@, labels@, digits_layout()),
        r matches Ok(task) ==> {
            &&& task.layer_sizes@ == seq![IMAGE_SIZE, HIDDEN_FIRST, HIDDEN_SECOND, CLASS_COUNT]
            &&& task.epochs == EPOCHS
            &&& task.batch_size == BATCH_SIZE
            &&& split_items(images@, labels@, digits_layout(), task.training@, task.testing@)
        },
        r matches Err(e) ==> first_fault(images@, labels@, digits_layout(), e),
{
    let layout = ArchiveLayout { image_size: IMAGE_SIZE, train_count: TRAIN_COUNT, test_count: TEST_COUNT };
    match load_digits(images, labels, layout) {
        Ok((training, testing)) => {
            let layer_sizes = vec![IMAGE_SIZE, HIDDEN_FIRST, HIDDEN_SECOND, CLASS_COUNT];
            Ok(DigitsTask { layer_sizes, epochs: EPOCHS, batch_size: BATCH_SIZE, training, testing })
        },
        Err(e) => Err(e),
    }
}

} // verus!

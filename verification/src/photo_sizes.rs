//! The still thumbnails that Telegram offers for a document.

use vstd::prelude::*;

verus! {

/// The most bytes that a thumbnail may take.
pub const THUMBNAIL_MAX_BYTES: usize = 2 * 1024 * 1024;

/// What the header and the footer add to a stripped thumbnail when it is expanded.
pub const STRIPPED_OVERHEAD: usize = 622;

/// One thumbnail on offer, with what its size depends on.
#[derive(Debug)]
pub enum PhotoSize {
    /// There is no picture.
    Empty,
    /// A picture to be downloaded.
    Size { size: i32 },
    /// A picture that came with the message.
    Cached { bytes: Vec<u8> },
    /// A tiny picture without its JPEG header.
    Stripped { bytes: Vec<u8> },
    /// A picture to be downloaded, with the sizes of its steps.
    Progressive { sizes: Vec<i32> },
    /// The outline of an animated sticker.
    Path { bytes: Vec<u8> },
}

/// What the cast of `i` to `usize` gives.
pub open spec fn cast_to_usize(i: i32) -> int {
    if i >= 0 {
        i as int
    } else {
        i + usize::MAX + 1
    }
}

/// The largest of `sizes`, or zero where there are none.
pub open spec fn largest(sizes: Seq<i32>) -> i32
    decreases sizes.len(),
{
    if sizes.len() == 0 {
        0
    } else if sizes.len() == 1 || sizes.last() > largest(sizes.drop_last()) {
        sizes.last()
    } else {
        largest(sizes.drop_last())
    }
}

proof fn lemma_largest(sizes: Seq<i32>)
    ensures
        sizes.len() == 0 ==> largest(sizes) == 0,
        sizes.len() > 0 ==> sizes.contains(largest(sizes)),
        forall|j: int| 0 <= j < sizes.len() ==> #[trigger] sizes[j] <= largest(sizes),
    decreases sizes.len(),
{
    if sizes.len() > 0 {
        let shorter = sizes.drop_last();
        lemma_largest(shorter);
        if shorter.len() > 0 {
            let k = choose|k: int| 0 <= k < shorter.len() && shorter[k] == largest(shorter);
            assert(sizes[k] == largest(shorter));
        }
        assert(sizes[sizes.len() - 1] == sizes.last());
        assert forall|j: int| 0 <= j < sizes.len() implies #[trigger] sizes[j] <= largest(sizes) by {
            if j < shorter.len() {
                assert(shorter[j] == sizes[j]);
            }
        }
    }
}

fn largest_of(sizes: &Vec<i32>) -> (max: i32)
    ensures
        max == largest(sizes@),
        sizes@.len() > 0 ==> sizes@.contains(max),
        forall|j: int| 0 <= j < sizes@.len() ==> #[trigger] sizes@[j] <= max,
{
    proof {
        lemma_largest(sizes@);
    }
    if sizes.len() == 0 {
        return 0;
    }
    let mut max: i32 = sizes[0];
    assert(sizes@.take(1).last() == max);
    let mut i: usize = 1;
    while i < sizes.len()
        invariant
            1 <= i <= sizes@.len(),
            max == largest(sizes@.take(i as int)),
        decreases sizes@.len() - i,
    {
        assert(sizes@.take(i + 1).drop_last() == sizes@.take(i as int));
        if sizes[i] > max {
            max = sizes[i];
        }
        i = i + 1;
    }
    assert(sizes@.take(i as int) == sizes@);
    max
}

fn to_usize(i: i32) -> (n: usize)
    ensures
        n == cast_to_usize(i),
{
    if i >= 0 {
        i as usize
    } else {
        usize::MAX - ((-1 - i) as usize)
    }
}

impl PhotoSize {
    /// How many bytes the picture takes. A stripped one without its mark holds no picture. No
    /// vector is so long that the sum for a stripped one is cut off.
    pub open spec fn spec_size(self) -> int {
        match self {
            PhotoSize::Empty => 0,
            PhotoSize::Size { size } => cast_to_usize(size),
            PhotoSize::Cached { bytes } => bytes@.len() as int,
            PhotoSize::Stripped { bytes } => if bytes@.len() < 3 || bytes@[0] != 1 {
                0
            } else if bytes@.len() + STRIPPED_OVERHEAD > usize::MAX {
                usize::MAX as int
            } else {
                bytes@.len() + STRIPPED_OVERHEAD
            },
            PhotoSize::Progressive { sizes } => cast_to_usize(largest(sizes@)),
            PhotoSize::Path { bytes } => bytes@.len() as int,
        }
    }

    /// Whether the picture can serve as the thumbnail of a document: it is a picture, and of
    /// a size that is neither nothing nor too much.
    pub open spec fn usable(self) -> bool {
        &&& !(self is Empty)
        &&& !(self is Path)
        &&& 0 < self.spec_size() <= THUMBNAIL_MAX_BYTES
    }

    /// How many bytes the picture takes.
    pub fn size(&self) -> (size: usize)
        ensures
            size == self.spec_size(),
    {
        match self {
            PhotoSize::Empty => 0,
            PhotoSize::Size { size } => to_usize(*size),
            PhotoSize::Cached { bytes } => bytes.len(),
            PhotoSize::Stripped { bytes } => {
                if bytes.len() < 3 || bytes[0] != 1 {
                    return 0;
                }
                bytes.len().saturating_add(STRIPPED_OVERHEAD)
            },
            PhotoSize::Progressive { sizes } => to_usize(largest_of(sizes)),
            PhotoSize::Path { bytes } => bytes.len(),
        }
    }

    fn is_usable(&self) -> (usable: bool)
        ensures
            usable == self.usable(),
    {
        let picture = match self {
            PhotoSize::Empty => false,
            PhotoSize::Path { .. } => false,
            _ => true,
        };
        picture && self.size() > 0 && self.size() <= THUMBNAIL_MAX_BYTES
    }
}

/// The place of the best thumbnail: the last among the largest that are usable.
pub open spec fn best_thumbnail(thumbs: Seq<PhotoSize>) -> Option<int>
    decreases thumbs.len(),
{
    if thumbs.len() == 0 {
        None
    } else {
        let best = best_thumbnail(thumbs.drop_last());
        if thumbs.last().usable() && (best is None || thumbs.last().spec_size()
            >= thumbs[best->0].spec_size()) {
            Some(thumbs.len() - 1)
        } else {
            best
        }
    }
}

/// Whether `best` is the place of the best thumbnail.
pub open spec fn is_best(thumbs: Seq<PhotoSize>, best: Option<int>) -> bool {
    match best {
        Some(i) => {
            &&& 0 <= i < thumbs.len()
            &&& thumbs[i].usable()
            &&& forall|j: int|
                0 <= j < thumbs.len() && (#[trigger] thumbs[j]).usable() ==> thumbs[j].spec_size()
                    <= thumbs[i].spec_size()
            &&& forall|j: int|
                i < j < thumbs.len() && (#[trigger] thumbs[j]).usable() ==> thumbs[j].spec_size()
                    < thumbs[i].spec_size()
        },
        None => forall|j: int| 0 <= j < thumbs.len() ==> !(#[trigger] thumbs[j]).usable(),
    }
}

proof fn lemma_best_thumbnail(thumbs: Seq<PhotoSize>)
    ensures
        is_best(thumbs, best_thumbnail(thumbs)),
    decreases thumbs.len(),
{
    if thumbs.len() > 0 {
        let rest = thumbs.drop_last();
        lemma_best_thumbnail(rest);
        assert forall|j: int| 0 <= j < rest.len() implies rest[j] == thumbs[j] by {}
    }
}

/// Finds the best thumbnail of a document: of the pictures that are neither empty nor an
/// outline and take at most the bytes allowed, the largest; among equals, the last.
pub fn best_document_thumbnail(thumbs: &Vec<PhotoSize>) -> (found: Option<usize>)
    ensures
        best_thumbnail(thumbs@) == (match found {
            Some(i) => Some(i as int),
            None => None,
        }),
        is_best(thumbs@, best_thumbnail(thumbs@)),
{
    let mut best: Option<usize> = None;
    let mut i: usize = 0;
    while i < thumbs.len()
        invariant
            i <= thumbs@.len(),
            best_thumbnail(thumbs@.take(i as int)) == (match best {
                Some(k) => Some(k as int),
                None => None,
            }),
            best matches Some(k) ==> k < i,
        decreases thumbs@.len() - i,
    {
        assert(thumbs@.take(i + 1).drop_last() == thumbs@.take(i as int));
        if thumbs[i].is_usable() {
            best = match best {
                Some(k) => if thumbs[i].size() >= thumbs[k].size() {
                    Some(i)
                } else {
                    Some(k)
                },
                None => Some(i),
            };
        }
        i = i + 1;
    }
    assert(thumbs@.take(i as int) == thumbs@);
    proof {
        lemma_best_thumbnail(thumbs@);
    }
    best
}

/// A progressive picture takes the bytes of one of its steps, and no step takes more. A
/// negative number of bytes, which is cast, is more than any thumbnail may take.
pub proof fn law_progressive_picture_takes_its_largest_step(sizes: Vec<i32>, j: int)
    requires
        0 <= j < sizes@.len(),
    ensures
        ({
            let size = (PhotoSize::Progressive { sizes }).spec_size();
            &&& sizes@[j] >= 0 ==> sizes@[j] <= size && exists|k: int|
                0 <= k < sizes@.len() && #[trigger] sizes@[k] == size
            &&& size <= i32::MAX ==> sizes@[j] <= size && exists|k: int|
                0 <= k < sizes@.len() && #[trigger] sizes@[k] == size
            &&& size > i32::MAX ==> sizes@[j] < 0 && exists|k: int|
                0 <= k < sizes@.len() && #[trigger] sizes@[k] + usize::MAX + 1 == size
        }),
{
    lemma_largest(sizes@);
    let k = choose|k: int| 0 <= k < sizes@.len() && sizes@[k] == largest(sizes@);
    assert(sizes@[k] == largest(sizes@));
}

/// What a picture takes: a picture to be downloaded says it itself, one that came with the
/// message is as long as its bytes, a marked stripped one gains 622 bytes when expanded, and
/// nothing is taken where there is no picture.
pub proof fn law_sizes_of_pictures(thumb: PhotoSize)
    ensures
        match thumb {
            PhotoSize::Empty => thumb.spec_size() == 0,
            PhotoSize::Size { size } => {
                &&& size >= 0 ==> thumb.spec_size() == size
                &&& size < 0 ==> thumb.spec_size() == size + usize::MAX + 1
            },
            PhotoSize::Cached { bytes } => thumb.spec_size() == bytes@.len(),
            PhotoSize::Stripped { bytes } => {
                let marked = bytes@.len() >= 3 && bytes@[0] == 1;
                &&& !marked ==> thumb.spec_size() == 0
                &&& marked && bytes@.len() <= usize::MAX - 622 ==> thumb.spec_size() == bytes@.len()
                    + 622
                &&& marked ==> thumb.spec_size() >= bytes@.len()
            },
            PhotoSize::Progressive { sizes } => sizes@.len() == 0 ==> thumb.spec_size() == 0,
            PhotoSize::Path { bytes } => thumb.spec_size() == bytes@.len(),
        },
{
    if let PhotoSize::Stripped { bytes } = thumb {
        assert(bytes.len() <= usize::MAX);
    }
}

/// The best thumbnail is a picture, neither empty nor an outline, of 1 to 2097152 bytes; no
/// other such picture on offer takes more, and of those that take as much it is the last.
/// There is one exactly where such a picture is on offer.
pub proof fn law_best_thumbnail_is_the_largest_that_fits(thumbs: Seq<PhotoSize>, j: int)
    requires
        0 <= j < thumbs.len(),
    ensures
        ({
            let fits = !(thumbs[j] is Empty) && !(thumbs[j] is Path) && 0 < thumbs[j].spec_size()
                <= 2097152;
            match best_thumbnail(thumbs) {
                Some(i) => {
                    &&& 0 <= i < thumbs.len()
                    &&& !(thumbs[i] is Empty)
                    &&& !(thumbs[i] is Path)
                    &&& 0 < thumbs[i].spec_size() <= 2097152
                    &&& fits ==> thumbs[j].spec_size() <= thumbs[i].spec_size()
                    &&& fits && i < j ==> thumbs[j].spec_size() < thumbs[i].spec_size()
                },
                None => !fits,
            }
        }),
{
    lemma_best_thumbnail(thumbs);
}

} // verus!

//! Embedded thumbnails of a RAW file, and the choice of which one to show.
use vstd::prelude::*;

verus! {

/// The encoding of an embedded thumbnail, with the variants that the RAW
/// decoder reports.
#[derive(Clone, Copy, Debug, PartialEq, Eq, Structural)]
pub enum ThumbKind {
    Unknown,
    Jpeg,
    Bitmap,
    Bitmap16,
    Layer,
    Rollei,
    H265,
}

/// A thumbnail embedded in a RAW file: its encoding, its size in pixels,
/// its number of color channels and its bytes.
#[derive(Debug)]
pub struct Thumbnail {
    pub format: ThumbKind,
    pub width: u32,
    pub height: u32,
    pub colors: u16,
    pub data: Vec<u8>,
}

/// The longer edge of a thumbnail.
pub open spec fn edge_of(t: Thumbnail) -> int {
    if t.width >= t.height {
        t.width as int
    } else {
        t.height as int
    }
}

/// Whether a thumbnail's encoding can be shown: JPEG or an 8- or 16-bit
/// bitmap.
pub open spec fn is_viewable(kind: ThumbKind) -> bool {
    kind == ThumbKind::Jpeg || kind == ThumbKind::Bitmap || kind == ThumbKind::Bitmap16
}

/// Whether a thumbnail takes part in a choice: JPEG only, or any viewable
/// one.
pub open spec fn eligible(t: Thumbnail, jpeg_only: bool) -> bool {
    if jpeg_only {
        t.format == ThumbKind::Jpeg
    } else {
        is_viewable(t.format)
    }
}

/// The longer edge of `thumb`.
pub fn thumbnail_max_edge(thumb: &Thumbnail) -> (edge: u32)
    ensures
        edge == edge_of(*thumb),
{
    if thumb.width >= thumb.height {
        thumb.width
    } else {
        thumb.height
    }
}

/// Whether an embedded preview of longer edge `edge` is good enough for a
/// RAW image of `raw_width` x `raw_height`: at least 2048 pixels, or at
/// least half the RAW image's longer edge (the doubling saturates at
/// `u32::MAX`).
pub open spec fn large_enough(edge: int, raw_width: u32, raw_height: u32) -> bool {
    let raw_edge: int = if raw_width >= raw_height {
        raw_width as int
    } else {
        raw_height as int
    };
    let doubled: int = if 2 * edge > u32::MAX {
        u32::MAX as int
    } else {
        2 * edge
    };
    edge >= 2048 || doubled >= raw_edge
}

fn is_viewable_kind(kind: ThumbKind) -> (r: bool)
    ensures
        r == is_viewable(kind),
{
    match kind {
        ThumbKind::Jpeg | ThumbKind::Bitmap | ThumbKind::Bitmap16 => true,
        _ => false,
    }
}

fn is_eligible(t: &Thumbnail, jpeg_only: bool) -> (r: bool)
    ensures
        r == eligible(*t, jpeg_only),
{
    if jpeg_only {
        match t.format {
            ThumbKind::Jpeg => true,
            _ => false,
        }
    } else {
        is_viewable_kind(t.format)
    }
}

/// Whether `thumb` is large enough to stand for a RAW image of the given
/// size.
pub fn is_preview_thumb_large_enough(thumb: &Thumbnail, raw_width: u32, raw_height: u32) -> (r:
    bool)
    ensures
        r == large_enough(edge_of(*thumb), raw_width, raw_height),
{
    let thumb_edge = thumbnail_max_edge(thumb);
    let raw_edge = if raw_width >= raw_height {
        raw_width
    } else {
        raw_height
    };
    let doubled: u32 = if thumb_edge > u32::MAX / 2 {
        u32::MAX
    } else {
        thumb_edge * 2
    };
    thumb_edge >= 2048 || doubled >= raw_edge
}

/// `i` is the preview thumbnail: a viewable one of largest edge, the last
/// such one when several share that edge.
pub open spec fn is_preview_choice(thumbs: Seq<Thumbnail>, i: int) -> bool {
    &&& 0 <= i < thumbs.len()
    &&& is_viewable(thumbs[i].format)
    &&& forall|j: int|
        0 <= j < thumbs.len() && is_viewable(#[trigger] thumbs[j].format) ==> edge_of(thumbs[j])
            <= edge_of(thumbs[i])
    &&& forall|j: int|
        i < j < thumbs.len() && is_viewable(#[trigger] thumbs[j].format) ==> edge_of(thumbs[j])
            < edge_of(thumbs[i])
}

/// Some thumbnail of `thumbs` is eligible.
pub open spec fn any_eligible(thumbs: Seq<Thumbnail>, jpeg_only: bool) -> bool {
    exists|j: int| 0 <= j < thumbs.len() && #[trigger] eligible(thumbs[j], jpeg_only)
}

/// Chooses the preview thumbnail: among the JPEG and bitmap ones, the one
/// with the longest edge (the last of equals). `None` when there is no
/// such thumbnail.
pub fn select_preview_thumb(thumbs: &[Thumbnail]) -> (r: Option<usize>)
    ensures
        r is None <==> !any_eligible(thumbs@, false),
        r matches Some(i) ==> is_preview_choice(thumbs@, i as int),
{
    let mut best: Option<usize> = None;
    let mut best_edge: u32 = 0;
    for i in 0..thumbs.len()
        invariant
            best is None <==> !any_eligible(thumbs@.take(i as int), false),
            best matches Some(b) ==> {
                &&& b < i
                &&& is_viewable(thumbs@[b as int].format)
                &&& best_edge == edge_of(thumbs@[b as int])
                &&& forall|j: int|
                    0 <= j < i && is_viewable(#[trigger] thumbs@[j].format) ==> edge_of(thumbs@[j])
                        <= best_edge
                &&& forall|j: int|
                    b < j < i && is_viewable(#[trigger] thumbs@[j].format) ==> edge_of(thumbs@[j])
                        < best_edge
            },
    {
        let ghost prev = thumbs@.take(i as int);
        let ghost next = thumbs@.take(i + 1);
        assert(forall|j: int| 0 <= j < i ==> #[trigger] next[j] == prev[j]);
        if is_viewable_kind(thumbs[i].format) {
            let edge = thumbnail_max_edge(&thumbs[i]);
            let replace = match best {
                None => true,
                Some(_) => edge >= best_edge,
            };
            let ghost old_edge = best_edge;
            let ghost old_best = best;
            if replace {
                best = Some(i);
                best_edge = edge;
            }
            assert(edge as int == edge_of(thumbs@[i as int]));
            assert forall|j: int|
                0 <= j < i + 1 && is_viewable(#[trigger] thumbs@[j].format) implies edge_of(
                thumbs@[j],
            ) <= best_edge by {
                if j < i {
                    assert(prev[j] == thumbs@[j]);
                    assert(eligible(prev[j], false));
                    assert(old_best is Some);
                    assert(edge_of(thumbs@[j]) <= old_edge);
                }
            }
            assert(eligible(next[i as int], false));
        } else {
            assert(!eligible(next[i as int], false));
            assert(any_eligible(next, false) ==> any_eligible(prev, false));
        }
    }
    assert(thumbs@.take(thumbs@.len() as int) =~= thumbs@);
    best
}

/// `i` is the best thumbnail for a target edge `size` among the eligible
/// ones: if some reach `size`, the smallest of those (the first of
/// equals); otherwise the largest (the first of equals).
pub open spec fn is_size_choice(thumbs: Seq<Thumbnail>, size: u32, jpeg_only: bool, i: int) -> bool {
    &&& 0 <= i < thumbs.len()
    &&& eligible(thumbs[i], jpeg_only)
    &&& if reaches_size(thumbs, size, jpeg_only) {
        &&& edge_of(thumbs[i]) >= size
        &&& forall|j: int|
            0 <= j < thumbs.len() && #[trigger] eligible(thumbs[j], jpeg_only) && edge_of(thumbs[j])
                >= size ==> edge_of(thumbs[i]) <= edge_of(thumbs[j])
        &&& forall|j: int|
            0 <= j < i && #[trigger] eligible(thumbs[j], jpeg_only) && edge_of(thumbs[j]) >= size
                ==> edge_of(thumbs[i]) < edge_of(thumbs[j])
    } else {
        &&& forall|j: int|
            0 <= j < thumbs.len() && #[trigger] eligible(thumbs[j], jpeg_only) ==> edge_of(
                thumbs[j],
            ) <= edge_of(thumbs[i])
        &&& forall|j: int|
            0 <= j < i && #[trigger] eligible(thumbs[j], jpeg_only) ==> edge_of(thumbs[j])
                < edge_of(thumbs[i])
    }
}

/// Some eligible thumbnail has an edge of at least `size`.
pub open spec fn reaches_size(thumbs: Seq<Thumbnail>, size: u32, jpeg_only: bool) -> bool {
    exists|j: int|
        0 <= j < thumbs.len() && #[trigger] eligible(thumbs[j], jpeg_only) && edge_of(thumbs[j])
            >= size
}

/// The best eligible thumbnail for a target edge `size`, as
/// `is_size_choice` describes it.
fn pick_for_size(thumbs: &[Thumbnail], size: u32, jpeg_only: bool) -> (r: Option<usize>)
    ensures
        r is None <==> !any_eligible(thumbs@, jpeg_only),
        r matches Some(i) ==> is_size_choice(thumbs@, size, jpeg_only, i as int),
{
    let mut big: Option<usize> = None;
    let mut big_edge: u32 = 0;
    let mut small: Option<usize> = None;
    let mut small_edge: u32 = 0;
    for i in 0..thumbs.len()
        invariant
            big is None <==> !reaches_size(thumbs@.take(i as int), size, jpeg_only),
            big matches Some(b) ==> {
                &&& b < i
                &&& eligible(thumbs@[b as int], jpeg_only)
                &&& big_edge == edge_of(thumbs@[b as int])
                &&& big_edge >= size
                &&& forall|j: int|
                    0 <= j < i && #[trigger] eligible(thumbs@[j], jpeg_only) && edge_of(thumbs@[j])
                        >= size ==> big_edge <= edge_of(thumbs@[j])
                &&& forall|j: int|
                    0 <= j < b && #[trigger] eligible(thumbs@[j], jpeg_only) && edge_of(thumbs@[j])
                        >= size ==> big_edge < edge_of(thumbs@[j])
            },
            small is None <==> (forall|j: int|
                0 <= j < i && #[trigger] eligible(thumbs@[j], jpeg_only) ==> edge_of(thumbs@[j])
                    >= size),
            small matches Some(s) ==> {
                &&& s < i
                &&& eligible(thumbs@[s as int], jpeg_only)
                &&& small_edge == edge_of(thumbs@[s as int])
                &&& small_edge < size
                &&& forall|j: int|
                    0 <= j < i && #[trigger] eligible(thumbs@[j], jpeg_only) && edge_of(thumbs@[j])
                        < size ==> edge_of(thumbs@[j]) <= small_edge
                &&& forall|j: int|
                    0 <= j < s && #[trigger] eligible(thumbs@[j], jpeg_only) && edge_of(thumbs@[j])
                        < size ==> edge_of(thumbs@[j]) < small_edge
            },
    {
        let ghost prev = thumbs@.take(i as int);
        let ghost next = thumbs@.take(i + 1);
        assert(forall|j: int| 0 <= j < i ==> #[trigger] next[j] == prev[j]);
        assert(next[i as int] == thumbs@[i as int]);
        if is_eligible(&thumbs[i], jpeg_only) {
            let edge = thumbnail_max_edge(&thumbs[i]);
            if edge >= size {
                let keep = match big {
                    Some(_) => edge >= big_edge,
                    None => false,
                };
                let ghost old_edge = big_edge;
                let ghost old_big = big;
                if !keep {
                    big = Some(i);
                    big_edge = edge;
                }
                assert(edge as int == edge_of(thumbs@[i as int]));
                assert forall|j: int|
                    0 <= j < i + 1 && #[trigger] eligible(thumbs@[j], jpeg_only) && edge_of(
                        thumbs@[j],
                    ) >= size implies big_edge <= edge_of(thumbs@[j]) by {
                    if j < i {
                        assert(prev[j] == thumbs@[j]);
                        assert(eligible(prev[j], jpeg_only) && edge_of(prev[j]) >= size);
                        assert(reaches_size(prev, size, jpeg_only));
                        assert(old_big is Some);
                        assert(old_edge <= edge_of(thumbs@[j]));
                    }
                }
                assert forall|j: int|
                    0 <= j < big.unwrap() && #[trigger] eligible(thumbs@[j], jpeg_only) && edge_of(
                        thumbs@[j],
                    ) >= size implies big_edge < edge_of(thumbs@[j]) by {
                    if j < i {
                        assert(prev[j] == thumbs@[j]);
                        assert(eligible(prev[j], jpeg_only) && edge_of(prev[j]) >= size);
                        assert(reaches_size(prev, size, jpeg_only));
                        assert(old_big is Some);
                    }
                }
                assert(next[i as int] == thumbs@[i as int]);
                assert(reaches_size(next, size, jpeg_only));
            } else {
                let keep = match small {
                    Some(_) => edge <= small_edge,
                    None => false,
                };
                if !keep {
                    small = Some(i);
                    small_edge = edge;
                }
                assert(reaches_size(next, size, jpeg_only) ==> reaches_size(prev, size, jpeg_only));
            }
        } else {
            assert(reaches_size(next, size, jpeg_only) ==> reaches_size(prev, size, jpeg_only));
        }
    }
    assert(thumbs@.take(thumbs@.len() as int) =~= thumbs@);
    match big {
        Some(b) => Some(b),
        None => {
            proof {
                if small is None && any_eligible(thumbs@, jpeg_only) {
                    let j = choose|j: int|
                        0 <= j < thumbs@.len() && #[trigger] eligible(thumbs@[j], jpeg_only);
                    assert(reaches_size(thumbs@, size, jpeg_only));
                }
            }
            small
        },
    }
}

/// The thumbnail choice for a target edge: with `prefer_jpeg` and at least
/// one JPEG thumbnail, the best JPEG one; otherwise the best viewable one.
pub open spec fn is_thumbnail_choice(
    thumbs: Seq<Thumbnail>,
    size: u32,
    prefer_jpeg: bool,
    r: Option<usize>,
) -> bool {
    if prefer_jpeg && any_eligible(thumbs, true) {
        r matches Some(i) && is_size_choice(thumbs, size, true, i as int)
    } else if any_eligible(thumbs, false) {
        r matches Some(i) && is_size_choice(thumbs, size, false, i as int)
    } else {
        r is None
    }
}

/// Chooses the thumbnail to scale to `thumbnail_size`: preferring JPEG ones
/// when asked to and when there are any, the smallest that reaches the
/// size, or else the largest.
pub fn select_thumbnail_thumb(thumbs: &[Thumbnail], thumbnail_size: u32, prefer_jpeg_thumbnail: bool) -> (r:
    Option<usize>)
    ensures
        is_thumbnail_choice(thumbs@, thumbnail_size, prefer_jpeg_thumbnail, r),
{
    if prefer_jpeg_thumbnail {
        if let Some(i) = pick_for_size(thumbs, thumbnail_size, true) {
            return Some(i);
        }
    }
    pick_for_size(thumbs, thumbnail_size, false)
}

/// The preview choice is determined by the thumbnails: two thumbnails
/// that both meet `is_preview_choice` are the same one.
pub proof fn lemma_preview_choice_unique(thumbs: Seq<Thumbnail>, i: int, k: int)
    requires
        is_preview_choice(thumbs, i),
        is_preview_choice(thumbs, k),
    ensures
        i == k,
{
    if i < k {
        assert(is_viewable(thumbs[k].format));
        assert(is_viewable(thumbs[i].format));
    } else if k < i {
        assert(is_viewable(thumbs[k].format));
        assert(is_viewable(thumbs[i].format));
    }
}

/// The choice for a target size is determined by the thumbnails: two
/// thumbnails that both meet `is_size_choice` are the same one.
pub proof fn lemma_size_choice_unique(
    thumbs: Seq<Thumbnail>,
    size: u32,
    jpeg_only: bool,
    i: int,
    k: int,
)
    requires
        is_size_choice(thumbs, size, jpeg_only, i),
        is_size_choice(thumbs, size, jpeg_only, k),
    ensures
        i == k,
{
    assert(eligible(thumbs[i], jpeg_only));
    assert(eligible(thumbs[k], jpeg_only));
}

/// The thumbnail choice is determined by the thumbnails, the size and the
/// JPEG preference.
pub proof fn lemma_thumbnail_choice_unique(
    thumbs: Seq<Thumbnail>,
    size: u32,
    prefer_jpeg: bool,
    r1: Option<usize>,
    r2: Option<usize>,
)
    requires
        is_thumbnail_choice(thumbs, size, prefer_jpeg, r1),
        is_thumbnail_choice(thumbs, size, prefer_jpeg, r2),
    ensures
        r1 == r2,
{
    if prefer_jpeg && any_eligible(thumbs, true) {
        lemma_size_choice_unique(thumbs, size, true, r1->0 as int, r2->0 as int);
    } else if any_eligible(thumbs, false) {
        lemma_size_choice_unique(thumbs, size, false, r1->0 as int, r2->0 as int);
    }
}

/// The preview thumbnail, when there is one.
pub open spec fn preview_pick(thumbs: Seq<Thumbnail>) -> Option<int> {
    if exists|i: int| is_preview_choice(thumbs, i) {
        Some(choose|i: int| is_preview_choice(thumbs, i))
    } else {
        None
    }
}

/// The thumbnail to scale to `size`, when there is one.
pub open spec fn thumbnail_pick(thumbs: Seq<Thumbnail>, size: u32, prefer_jpeg: bool) -> Option<
    usize,
> {
    choose|r: Option<usize>| is_thumbnail_choice(thumbs, size, prefer_jpeg, r)
}

/// `select_preview_thumb` gives `preview_pick`.
pub(crate) fn select_preview_index(thumbs: &[Thumbnail]) -> (r: Option<usize>)
    ensures
        match r {
            Some(i) => preview_pick(thumbs@) == Some(i as int) && is_preview_choice(
                thumbs@,
                i as int,
            ),
            None => preview_pick(thumbs@) is None,
        },
{
    let r = select_preview_thumb(thumbs);
    proof {
        match r {
            Some(i) => {
                assert(is_preview_choice(thumbs@, i as int));
                let k = choose|k: int| is_preview_choice(thumbs@, k);
                lemma_preview_choice_unique(thumbs@, i as int, k);
            },
            None => {
                if exists|i: int| is_preview_choice(thumbs@, i) {
                    let k = choose|k: int| is_preview_choice(thumbs@, k);
                    assert(eligible(thumbs@[k], false));
                }
            },
        }
    }
    r
}

/// `select_thumbnail_thumb` gives `thumbnail_pick`.
pub(crate) fn select_thumbnail_index(thumbs: &[Thumbnail], size: u32, prefer_jpeg: bool) -> (r: Option<
    usize,
>)
    ensures
        r == thumbnail_pick(thumbs@, size, prefer_jpeg),
        is_thumbnail_choice(thumbs@, size, prefer_jpeg, r),
{
    let r = select_thumbnail_thumb(thumbs, size, prefer_jpeg);
    proof {
        let c = choose|c: Option<usize>| is_thumbnail_choice(thumbs@, size, prefer_jpeg, c);
        lemma_thumbnail_choice_unique(thumbs@, size, prefer_jpeg, r, c);
    }
    r
}

/// The saturation of the doubled edge never matters: a preview is large
/// enough exactly when its edge is at least 2048, or at least half the
/// RAW image's longer edge.
pub proof fn lemma_large_enough_plain(edge: u32, raw_width: u32, raw_height: u32)
    ensures
        large_enough(edge as int, raw_width, raw_height) == (edge >= 2048 || 2 * edge >= (
        if raw_width >= raw_height {
            raw_width
        } else {
            raw_height
        })),
{
}

/// With the JPEG preference on and at least one JPEG thumbnail, the chosen
/// thumbnail is a JPEG one; and whenever a thumbnail of the considered kind
/// reaches the target size, the chosen one reaches it too.
pub proof fn lemma_thumbnail_choice_properties(
    thumbs: Seq<Thumbnail>,
    size: u32,
    prefer_jpeg: bool,
    r: Option<usize>,
)
    requires
        is_thumbnail_choice(thumbs, size, prefer_jpeg, r),
    ensures
        prefer_jpeg && any_eligible(thumbs, true) ==> (r matches Some(i) && thumbs[i as int].format
            == ThumbKind::Jpeg),
        r matches Some(i) ==> is_viewable(thumbs[i as int].format),
        r is None <==> !any_eligible(thumbs, false),
        r matches Some(i) ==> (reaches_size(thumbs, size, prefer_jpeg && any_eligible(thumbs, true))
            ==> edge_of(thumbs[i as int]) >= size),
{
    if prefer_jpeg && any_eligible(thumbs, true) {
        let j = choose|j: int| 0 <= j < thumbs.len() && #[trigger] eligible(thumbs[j], true);
        assert(eligible(thumbs[j], false));
    }
}

} // verus!

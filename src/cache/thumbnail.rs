//! Thumbnail cache: rendered thumbnails held in memory, least recently used
//! first, and the on-disk location of each, named by the SHA-256 of its
//! file URI. The host reads and writes the files on disk.
use vstd::prelude::*;
use vstd::string::*;
use crate::path::{extension_of, file_name, file_name_of, join, join_of, split_extension};
use crate::text::{lower_of, str_eq, to_lower};

verus! {

pub const THUMBNAIL_SIZE_NORMAL: u32 = 128;

pub const THUMBNAIL_SIZE_LARGE: u32 = 256;

/// The fewest thumbnails held in memory, whatever the budget.
pub const MIN_THUMBNAILS: usize = 100;

#[derive(Clone, Copy, Debug, PartialEq, Eq, Hash, Structural)]
pub enum ThumbnailSize {
    Normal,
    Large,
}

impl ThumbnailSize {
    pub open spec fn spec_pixels(self) -> u32 {
        match self {
            ThumbnailSize::Normal => THUMBNAIL_SIZE_NORMAL,
            ThumbnailSize::Large => THUMBNAIL_SIZE_LARGE,
        }
    }

    pub open spec fn spec_directory_name(self) -> Seq<char> {
        match self {
            ThumbnailSize::Normal => seq!['n', 'o', 'r', 'm', 'a', 'l'],
            ThumbnailSize::Large => seq!['l', 'a', 'r', 'g', 'e'],
        }
    }

    /// The edge length in pixels.
    pub fn pixels(&self) -> (r: u32)
        ensures
            r == self.spec_pixels(),
    {
        match self {
            ThumbnailSize::Normal => THUMBNAIL_SIZE_NORMAL,
            ThumbnailSize::Large => THUMBNAIL_SIZE_LARGE,
        }
    }

    /// The subdirectory of the cache that holds thumbnails of this size.
    pub fn directory_name(&self) -> (r: &'static str)
        ensures
            r@ == self.spec_directory_name(),
    {
        proof {
            reveal_strlit("normal");
            reveal_strlit("large");
        }
        match self {
            ThumbnailSize::Normal => "normal",
            ThumbnailSize::Large => "large",
        }
    }
}

/// What sha2's SHA-256, written as lowercase hexadecimal, gives for the
/// UTF-8 bytes of a text.
pub uninterp spec fn sha256_hex_of(s: Seq<char>) -> Seq<char>;

/// Relies on sha2::Sha256::digest and the `{:x}` rendering of its 32-byte
/// output: two lowercase hexadecimal digits per byte.
#[verifier::external_body]
fn sha256_hex(s: &str) -> (r: String)
    ensures
        r@ == sha256_hex_of(s@),
        r@.len() == 64,
{
    format!("{:x}", <sha2::Sha256 as sha2::Digest>::digest(s.as_bytes()))
}

/// Whether an extension, already in lower case, names an image format that
/// thumbnails are made for.
pub open spec fn is_image_extension(e: Seq<char>) -> bool {
    e == "png"@ || e == "jpg"@ || e == "jpeg"@ || e == "gif"@ || e == "bmp"@ || e == "webp"@
        || e == "svg"@ || e == "tiff"@ || e == "tif"@ || e == "ico"@ || e == "heic"@ || e
        == "heif"@
}

/// Whether a path's name carries an image extension, in any case.
pub open spec fn supported_path(p: Seq<char>) -> bool {
    match file_name_of(p) {
        Some(n) => match extension_of(n) {
            Some(e) => is_image_extension(lower_of(e)),
            None => false,
        },
        None => false,
    }
}

/// One slot: source path, size, thumbnail bytes.
pub type ThumbSlots = Seq<(Seq<char>, ThumbnailSize, Seq<u8>)>;

pub open spec fn thumb_view(s: Seq<(String, ThumbnailSize, Vec<u8>)>) -> ThumbSlots {
    s.map_values(|t: (String, ThumbnailSize, Vec<u8>)| (t.0@, t.1, t.2@))
}

/// Index of the first slot from `i` on for `(p, z)`, or -1.
pub open spec fn find_thumb(s: ThumbSlots, p: Seq<char>, z: ThumbnailSize, i: int) -> int
    decreases s.len() - i,
{
    if i < 0 || i >= s.len() {
        -1
    } else if s[i].0 == p && s[i].1 == z {
        i
    } else {
        find_thumb(s, p, z, i + 1)
    }
}

pub open spec fn thumb_index(s: ThumbSlots, p: Seq<char>, z: ThumbnailSize) -> int {
    find_thumb(s, p, z, 0)
}

/// The slots after storing `d` for `(p, z)` with room for `cap` slots.
pub open spec fn thumb_put(s: ThumbSlots, cap: nat, p: Seq<char>, z: ThumbnailSize, d: Seq<u8>) -> ThumbSlots {
    let i = thumb_index(s, p, z);
    if i >= 0 {
        s.remove(i).push((p, z, d))
    } else if s.len() < cap {
        s.push((p, z, d))
    } else {
        s.drop_first().push((p, z, d))
    }
}

/// The slots after a lookup of `(p, z)`: a found slot becomes the most recent.
pub open spec fn thumb_touch(s: ThumbSlots, p: Seq<char>, z: ThumbnailSize) -> ThumbSlots {
    let i = thumb_index(s, p, z);
    if i >= 0 {
        s.remove(i).push(s[i])
    } else {
        s
    }
}

/// The slots after dropping the first slot for `(p, z)`, if any.
pub open spec fn thumb_drop(s: ThumbSlots, p: Seq<char>, z: ThumbnailSize) -> ThumbSlots {
    let i = thumb_index(s, p, z);
    if i >= 0 {
        s.remove(i)
    } else {
        s
    }
}

/// The number of thumbnails a memory budget of `mb` mebibytes holds: the
/// budget over the bytes of one large thumbnail, at least the minimum.
pub open spec fn thumbnail_capacity_for(mb: usize) -> usize {
    let budget: int = if mb > usize::MAX / 1048576 {
        usize::MAX as int
    } else {
        mb * 1048576
    };
    let n = budget / 262144;
    if n < MIN_THUMBNAILS {
        MIN_THUMBNAILS
    } else {
        n as usize
    }
}

/// In-memory thumbnails and the directory that holds them on disk.
pub struct ThumbnailCache {
    slots: Vec<(String, ThumbnailSize, Vec<u8>)>,
    cap: usize,
    cache_dir: String,
    size_limit_mb: usize,
}

impl View for ThumbnailCache {
    type V = ThumbSlots;

    closed spec fn view(&self) -> ThumbSlots {
        thumb_view(self.slots@)
    }
}

impl ThumbnailCache {
    pub closed spec fn spec_capacity(&self) -> usize {
        self.cap
    }

    pub closed spec fn spec_cache_dir(&self) -> Seq<char> {
        self.cache_dir@
    }

    pub closed spec fn spec_size_limit_mb(&self) -> usize {
        self.size_limit_mb
    }

    pub closed spec fn wf(&self) -> bool {
        self@.len() <= self.cap && self.cap >= 1
    }

    /// A cache whose thumbnails live under `cache_dir`, with a memory
    /// budget of `size_limit_mb` mebibytes.
    pub fn new(cache_dir: String, size_limit_mb: usize) -> (r: ThumbnailCache)
        ensures
            r.wf(),
            r@ == ThumbSlots::empty(),
            r.spec_capacity() == thumbnail_capacity_for(size_limit_mb),
            r.spec_cache_dir() == cache_dir@,
            r.spec_size_limit_mb() == size_limit_mb,
    {
        let budget: usize = if size_limit_mb > usize::MAX / 1048576 {
            usize::MAX
        } else {
            size_limit_mb * 1048576
        };
        let n = budget / 262144;
        let cap = if n < MIN_THUMBNAILS {
            MIN_THUMBNAILS
        } else {
            n
        };
        let r = ThumbnailCache { slots: Vec::new(), cap, cache_dir, size_limit_mb };
        assert(r@ =~= ThumbSlots::empty());
        r
    }

    pub fn cache_dir(&self) -> (r: &str)
        ensures
            r@ == self.spec_cache_dir(),
    {
        self.cache_dir.as_str()
    }

    pub fn size_limit_mb(&self) -> (r: usize)
        ensures
            r == self.spec_size_limit_mb(),
    {
        self.size_limit_mb
    }

    fn find(&self, path: &str, size: ThumbnailSize) -> (r: Option<usize>)
        ensures
            r matches Some(i) ==> i == thumb_index(self@, path@, size) && i < self.slots@.len(),
            r is None ==> thumb_index(self@, path@, size) == -1,
    {
        let mut i: usize = 0;
        while i < self.slots.len()
            invariant
                i <= self.slots@.len(),
                find_thumb(self@, path@, size, 0) == find_thumb(self@, path@, size, i as int),
            decreases self.slots@.len() - i,
        {
            if self.slots[i].1 == size && str_eq(self.slots[i].0.as_str(), path) {
                return Some(i);
            }
            i = i + 1;
        }
        None
    }

    /// The thumbnail of `path` at `size` held in memory, which becomes the
    /// most recently used; the host falls back to the copy on disk.
    pub fn get(&mut self, path: &str, size: ThumbnailSize) -> (r: Option<Vec<u8>>)
        requires
            old(self).wf(),
        ensures
            final(self).wf(),
            final(self).spec_capacity() == old(self).spec_capacity(),
            final(self).spec_cache_dir() == old(self).spec_cache_dir(),
            final(self)@ == thumb_touch(old(self)@, path@, size),
            thumb_index(old(self)@, path@, size) >= 0 ==> (r matches Some(d) && d@ == old(
                self,
            )@[thumb_index(old(self)@, path@, size)].2),
            thumb_index(old(self)@, path@, size) < 0 ==> r is None,
    {
        match self.find(path, size) {
            Some(i) => {
                let slot = self.slots.remove(i);
                let data = slot.2.clone();
                self.slots.push(slot);
                assert(self@ =~= thumb_touch(old(self)@, path@, size));
                Some(data)
            },
            None => None,
        }
    }

    /// Keeps `data` as the thumbnail of `path` at `size`, the most recently
    /// used; when memory is full the least recently used goes. The host
    /// writes the copy on disk.
    pub fn insert(&mut self, path: &str, size: ThumbnailSize, data: Vec<u8>)
        requires
            old(self).wf(),
        ensures
            final(self).wf(),
            final(self).spec_capacity() == old(self).spec_capacity(),
            final(self).spec_cache_dir() == old(self).spec_cache_dir(),
            final(self)@ == thumb_put(
                old(self)@,
                old(self).spec_capacity() as nat,
                path@,
                size,
                data@,
            ),
    {
        match self.find(path, size) {
            Some(i) => {
                self.slots.remove(i);
            },
            None => {
                if self.slots.len() >= self.cap {
                    self.slots.remove(0);
                }
            },
        }
        self.slots.push((path.to_owned(), size, data));
        assert(self@ =~= thumb_put(old(self)@, self.cap as nat, path@, size, data@));
    }

    fn drop_slot(&mut self, path: &str, size: ThumbnailSize)
        requires
            old(self).wf(),
        ensures
            final(self).wf(),
            final(self).spec_capacity() == old(self).spec_capacity(),
            final(self).spec_cache_dir() == old(self).spec_cache_dir(),
            final(self)@ == thumb_drop(old(self)@, path@, size),
    {
        match self.find(path, size) {
            Some(i) => {
                self.slots.remove(i);
                assert(self@ =~= thumb_drop(old(self)@, path@, size));
            },
            None => {},
        }
    }

    /// Drops the thumbnails of `path` at both sizes from memory; the host
    /// deletes the copies on disk.
    pub fn remove(&mut self, path: &str)
        requires
            old(self).wf(),
        ensures
            final(self).wf(),
            final(self).spec_capacity() == old(self).spec_capacity(),
            final(self).spec_cache_dir() == old(self).spec_cache_dir(),
            final(self)@ == thumb_drop(
                thumb_drop(old(self)@, path@, ThumbnailSize::Normal),
                path@,
                ThumbnailSize::Large,
            ),
    {
        self.drop_slot(path, ThumbnailSize::Normal);
        self.drop_slot(path, ThumbnailSize::Large);
    }

    /// Drops every thumbnail held in memory.
    pub fn clear(&mut self)
        requires
            old(self).wf(),
        ensures
            final(self).wf(),
            final(self).spec_capacity() == old(self).spec_capacity(),
            final(self).spec_cache_dir() == old(self).spec_cache_dir(),
            final(self)@ == ThumbSlots::empty(),
    {
        self.slots = Vec::new();
        assert(self@ =~= ThumbSlots::empty());
    }

    /// Whether an extension, already in lower case, names an image format.
    pub fn is_image_extension_text(s: &str) -> (r: bool)
        ensures
            r == is_image_extension(s@),
    {
        str_eq(s, "png") || str_eq(s, "jpg") || str_eq(s, "jpeg") || str_eq(s, "gif") || str_eq(
            s,
            "bmp",
        ) || str_eq(s, "webp") || str_eq(s, "svg") || str_eq(s, "tiff") || str_eq(s, "tif")
            || str_eq(s, "ico") || str_eq(s, "heic") || str_eq(s, "heif")
    }

    /// Whether thumbnails are made for the file at `path`, judged by its
    /// extension in any case.
    pub fn is_supported_format(path: &str) -> (r: bool)
        ensures
            r == supported_path(path@),
    {
        match file_name(path) {
            Some(n) => {
                let (_, ext) = split_extension(n.as_str());
                match ext {
                    Some(e) => {
                        let l = to_lower(e.as_str());
                        ThumbnailCache::is_image_extension_text(l.as_str())
                    },
                    None => false,
                }
            },
            None => false,
        }
    }

    /// Where the thumbnail of `path` at `size` is kept on disk:
    /// `<cache_dir>/<size>/<sha256 of file://path>.png`.
    pub fn get_thumbnail_path(&self, path: &str, size: ThumbnailSize) -> (r: Option<String>)
        ensures
            r matches Some(p) && p@ == join_of(
                join_of(self.spec_cache_dir(), size.spec_directory_name()),
                sha256_hex_of("file://"@ + path@) + ".png"@,
            ),
    {
        let mut uri = String::from_str("file://");
        uri.append(path);
        let hash = sha256_hex(uri.as_str());
        Some(self.thumbnail_path_for(hash.as_str(), size))
    }

    /// The on-disk location of a thumbnail at `size` whose source URI has
    /// the digest `hash`: `<cache_dir>/<size>/<hash>.png`.
    pub fn thumbnail_path_for(&self, hash: &str, size: ThumbnailSize) -> (r: String)
        ensures
            r@ == join_of(
                join_of(self.spec_cache_dir(), size.spec_directory_name()),
                hash@ + ".png"@,
            ),
    {
        let mut name = hash.to_owned();
        name.append(".png");
        let dir = join(self.cache_dir.as_str(), size.directory_name());
        join(dir.as_str(), name.as_str())
    }

    /// Number of thumbnails held in memory.
    pub fn cache_size(&self) -> (r: usize)
        ensures
            r == self@.len(),
    {
        self.slots.len()
    }

    /// Most thumbnails held in memory.
    pub fn cache_capacity(&self) -> (r: usize)
        ensures
            r == self.spec_capacity(),
    {
        self.cap
    }

    /// The stand-in image for a thumbnail: every RGBA byte zero.
    pub fn create_thumbnail_data(&self, data: &[u8], size: ThumbnailSize) -> (r: Vec<u8>)
        ensures
            r@.len() == size.spec_pixels() * size.spec_pixels() * 4,
            forall|i: int| 0 <= i < r@.len() ==> r@[i] == 0u8,
    {
        let p = size.pixels() as usize;
        let n = p * p * 4;
        let mut out: Vec<u8> = Vec::new();
        let mut i: usize = 0;
        while i < n
            invariant
                i <= n,
                out@.len() == i,
                forall|j: int| 0 <= j < i ==> out@[j] == 0u8,
            decreases n - i,
        {
            out.push(0);
            i = i + 1;
        }
        out
    }
}

} // verus!

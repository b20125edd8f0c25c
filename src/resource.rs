//! Where an asset is downloaded from and where its copy is kept.

use vstd::prelude::*;

verus! {

/// Most downloads of assets in flight at once.
pub const MAX_CONNECTIONS: usize = 8;

/// A size variant of the catalog's images.
#[derive(Debug, Clone, Copy, PartialEq, Eq, Structural)]
pub enum ImageSize {
    Hd,
}

impl ImageSize {
    /// The path segment that selects this size.
    pub open spec fn spec_label(self) -> Seq<char> {
        match self {
            ImageSize::Hd => "t_720p"@,
        }
    }

    pub fn to_string(&self) -> (r: String)
        ensures
            r@ == self.spec_label(),
    {
        match self {
            ImageSize::Hd => String::from_str("t_720p"),
        }
    }
}

/// The last position of `c` in `s`, or -1.
pub open spec fn last_index_of(s: Seq<char>, c: char) -> int
    decreases s.len(),
{
    if s.len() == 0 {
        -1
    } else if s.last() == c {
        s.len() - 1
    } else {
        last_index_of(s.drop_last(), c)
    }
}

proof fn lemma_last_index_bounds(s: Seq<char>, c: char)
    ensures
        -1 <= last_index_of(s, c) < s.len(),
        last_index_of(s, c) >= 0 ==> s[last_index_of(s, c)] == c,
    decreases s.len(),
{
    if s.len() > 0 {
        lemma_last_index_bounds(s.drop_last(), c);
    }
}

/// Position of the last '/' of a URL.
pub open spec fn file_sep(url: Seq<char>) -> int {
    last_index_of(url, '/')
}

/// Position of the '/' before it, or -1.
pub open spec fn dir_sep(url: Seq<char>) -> int {
    last_index_of(url.subrange(0, file_sep(url)), '/')
}

/// The last segment of the URL's path: the file name.
pub open spec fn file_name(url: Seq<char>) -> Seq<char> {
    url.subrange(file_sep(url) + 1, url.len() as int)
}

/// The segment before the file name.
pub open spec fn size_segment(url: Seq<char>) -> Seq<char> {
    url.subrange(dir_sep(url) + 1, file_sep(url))
}

/// Whether the URL is one of the catalog's thumbnails, whose size segment
/// can be replaced.
pub open spec fn is_thumbnail(url: Seq<char>) -> bool {
    size_segment(url) == "t_thumb"@
}

/// The file name to fetch and keep: for a thumbnail, the extension (what
/// follows the last '.', or the whole name if it has none) becomes `png`.
pub open spec fn target_file(url: Seq<char>) -> Seq<char> {
    let f = file_name(url);
    if is_thumbnail(url) {
        let d = last_index_of(f, '.');
        if d >= 0 {
            f.subrange(0, d + 1) + "png"@
        } else {
            "png"@
        }
    } else {
        f
    }
}

/// The address to download: the URL with the size segment of a thumbnail
/// set to `size`, the file name replaced by its target, under `https:`.
pub open spec fn request_url(size: Seq<char>, url: Seq<char>) -> Seq<char> {
    "https:"@ + url.subrange(0, dir_sep(url) + 1) + (if is_thumbnail(url) {
        size
    } else {
        size_segment(url)
    }) + "/"@ + target_file(url)
}

/// Where the download is kept: under `res`, in a directory per size for
/// thumbnails.
pub open spec fn cache_path(size: Seq<char>, url: Seq<char>) -> Seq<char> {
    "res/"@ + (if is_thumbnail(url) {
        size + "/"@
    } else {
        Seq::empty()
    }) + target_file(url)
}

/// The address of an asset and the file that caches it.
#[derive(Debug)]
pub struct ResourceLocation {
    pub url: String,
    pub path: String,
}

/// The last position of `c` among the first `end` characters of `s`.
fn last_index(s: &str, c: char, end: usize) -> (r: Option<usize>)
    requires
        end <= s@.len(),
    ensures
        r is None <==> last_index_of(s@.subrange(0, end as int), c) == -1,
        r matches Some(i) ==> i == last_index_of(s@.subrange(0, end as int), c),
{
    let mut i: usize = end;
    while i > 0
        invariant
            i <= end <= s@.len(),
            last_index_of(s@.subrange(0, end as int), c) == last_index_of(
                s@.subrange(0, i as int),
                c,
            ),
        decreases i,
    {
        proof {
            assert(s@.subrange(0, i as int).drop_last() =~= s@.subrange(0, i - 1));
        }
        if s.get_char(i - 1) == c {
            return Some(i - 1);
        }
        i -= 1;
    }
    None
}

/// Where to download the asset at `url` in the given size, and where to
/// keep it.
pub fn locate(size: &ImageSize, url: &str) -> (r: ResourceLocation)
    requires
        file_sep(url@) >= 0,
    ensures
        r.url@ == request_url(size.spec_label(), url@),
        r.path@ == cache_path(size.spec_label(), url@),
{
    let n = url.unicode_len();
    proof {
        assert(url@.subrange(0, n as int) =~= url@);
        lemma_last_index_bounds(url@, '/');
    }
    let p = match last_index(url, '/', n) {
        Some(p) => p,
        None => vstd::pervasive::unreached(),
    };
    proof {
        lemma_last_index_bounds(url@.subrange(0, p as int), '/');
    }
    let start: usize = match last_index(url, '/', p) {
        Some(q) => q + 1,
        None => 0,
    };
    let segment = url.substring_char(start, p);
    let file = url.substring_char(p + 1, n);
    let label = size.to_string();
    let thumbnail = String::from_str(segment) == String::from_str("t_thumb");
    let target = if thumbnail {
        let m = file.unicode_len();
        proof {
            assert(file@.subrange(0, m as int) =~= file@);
        }
        match last_index(file, '.', m) {
            Some(d) => {
                proof {
                    lemma_last_index_bounds(file@, '.');
                }
                String::from_str(file.substring_char(0, d + 1)).concat("png")
            },
            None => String::from_str("png"),
        }
    } else {
        String::from_str(file)
    };
    let mut address = String::from_str("https:");
    address.append(url.substring_char(0, start));
    if thumbnail {
        address.append(label.as_str());
    } else {
        address.append(segment);
    }
    address.append("/");
    address.append(target.as_str());
    let mut path = String::from_str("res/");
    if thumbnail {
        path.append(label.as_str());
        path.append("/");
    }
    path.append(target.as_str());
    proof {
        assert(address@ =~= request_url(size.spec_label(), url@));
        assert(path@ =~= cache_path(size.spec_label(), url@));
    }
    ResourceLocation { url: address, path }
}

} // verus!

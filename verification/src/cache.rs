//! The local image cache under a base directory (`~/.cache/fwaifu`):
//! stock and used sub-directories, separated by SFW and NSFW content.
//! Directory listings come in as values (`FileEntry`); the cache decides
//! which files count, which to pick, which to move and which to delete.
use vstd::prelude::*;
use crate::paths::{file_name, is_jpg, is_jpg_name, join, join_path, path_file_name};
use crate::text::{numeral, push_char, push_numeral, views};
use vstd::set_lib::{lemma_int_range, lemma_map_size, lemma_subset_equality, set_int_range};

verus! {

/// One entry of a directory listing.
pub struct FileEntry {
    /// The entry's name within its directory (one path component).
    pub name: String,
    /// The entry is a regular file.
    pub is_file: bool,
    /// Modification time in nanoseconds since the Unix epoch (0 where the
    /// time could not be read).
    pub modified: i128,
}

/// Why a file could not be moved.
#[derive(Clone, Copy, Debug, PartialEq, Eq, Structural)]
pub enum CacheError {
    /// The path has no file name ("File path has no filename").
    NoFileName,
}

/// Manages the local image cache under a base directory.
pub struct CacheManager {
    base_dir: String,
}

/// The name of the sub-directory of a mode.
pub open spec fn mode_dir(nsfw: bool) -> Seq<char> {
    if nsfw {
        "nsfw"@
    } else {
        "sfw"@
    }
}

/// An entry that counts as an image: a regular file with a `.jpg` extension.
pub open spec fn is_jpg_entry(e: FileEntry) -> bool {
    e.is_file && is_jpg_name(e.name@)
}

/// The image entries of a listing, in listing order.
pub open spec fn jpg_entries(es: Seq<FileEntry>) -> Seq<FileEntry>
    decreases es.len(),
{
    if es.len() == 0 {
        Seq::empty()
    } else {
        let r = jpg_entries(es.drop_last());
        if is_jpg_entry(es.last()) {
            r.push(es.last())
        } else {
            r
        }
    }
}

/// The paths of the image entries of a listing of `dir`.
pub open spec fn jpg_paths(dir: Seq<char>, es: Seq<FileEntry>) -> Seq<Seq<char>> {
    jpg_entries(es).map_values(|e: FileEntry| join(dir, e.name@))
}

/// Entry `a` of `js` is older than entry `b`: an earlier modification time,
/// or the same time and earlier in the listing (the order in which a stable
/// sort by modification time puts them).
pub open spec fn older(js: Seq<FileEntry>, a: int, b: int) -> bool {
    js[a].modified < js[b].modified || (js[a].modified == js[b].modified && a < b)
}

/// How many of the first `m` entries of `js` are older than entry `i`.
pub open spec fn rank_upto(js: Seq<FileEntry>, i: int, m: int) -> nat
    decreases m,
{
    if m <= 0 {
        0
    } else {
        rank_upto(js, i, m - 1) + if older(js, m - 1, i) { 1nat } else { 0nat }
    }
}

/// The position of entry `i` when `js` is sorted from oldest to newest.
pub open spec fn rank(js: Seq<FileEntry>, i: int) -> nat {
    rank_upto(js, i, js.len() as int)
}

/// The paths, in listing order, of the first `n` image entries whose
/// position from the oldest is below `excess`.
pub open spec fn oldest_upto(dir: Seq<char>, js: Seq<FileEntry>, excess: nat, n: int) -> Seq<
    Seq<char>,
>
    decreases n,
{
    if n <= 0 {
        Seq::empty()
    } else {
        let r = oldest_upto(dir, js, excess, n - 1);
        if rank(js, n - 1) < excess {
            r.push(join(dir, js[n - 1].name@))
        } else {
            r
        }
    }
}

/// The image files that trimming a listing of `dir` to `max_count` images
/// deletes: none where there are at most `max_count`, else the oldest
/// ones beyond `max_count` (by modification time, ties in listing order).
pub open spec fn excess_files(dir: Seq<char>, es: Seq<FileEntry>, max_count: nat) -> Seq<
    Seq<char>,
> {
    let js = jpg_entries(es);
    if js.len() <= max_count {
        Seq::empty()
    } else {
        oldest_upto(dir, js, (js.len() - max_count) as nat, js.len() as int)
    }
}

/// The name that `generate_filename` gives a new image.
pub open spec fn image_file_name(nsfw: bool, nanos: u128, random: u32) -> Seq<char> {
    let prefix = if nsfw {
        seq!['w', 'a', 'i', 'f', 'u', '_', 'n', 's', 'f', 'w']
    } else {
        seq!['w', 'a', 'i', 'f', 'u']
    };
    prefix + seq!['_'] + numeral(nanos as nat, 10) + seq!['_'] + numeral(random as nat, 16) + seq![
        '.',
        'j',
        'p',
        'g',
    ]
}

// ───────────────────────── listings ─────────────────────────

/// The indices of the image entries of `entries`.
fn jpg_indices(entries: &Vec<FileEntry>) -> (r: Vec<usize>)
    ensures
        r@.len() == jpg_entries(entries@).len(),
        forall|k: int| 0 <= k < r@.len() ==> #[trigger] r@[k] < entries@.len(),
        forall|k: int| 0 <= k < r@.len() ==> jpg_entries(entries@)[k] == entries@[#[trigger] r@[k] as int],
{
    let mut r: Vec<usize> = Vec::new();
    let mut i: usize = 0;
    assert(entries@.take(0) =~= Seq::<FileEntry>::empty());
    while i < entries.len()
        invariant
            i <= entries.len(),
            r@.len() == jpg_entries(entries@.take(i as int)).len(),
            forall|k: int| 0 <= k < r@.len() ==> #[trigger] r@[k] < i,
            forall|k: int|
                0 <= k < r@.len() ==> jpg_entries(entries@.take(i as int))[k] == entries@[#[trigger] r@[k] as int],
        decreases entries.len() - i,
    {
        let ghost prev = jpg_entries(entries@.take(i as int));
        assert(entries@.take(i + 1).drop_last() == entries@.take(i as int));
        assert(entries@.take(i + 1).last() == entries@[i as int]);
        let e = &entries[i];
        if e.is_file && is_jpg(e.name.as_str()) {
            r.push(i);
            assert(jpg_entries(entries@.take(i + 1)) == prev.push(entries@[i as int]));
        } else {
            assert(jpg_entries(entries@.take(i + 1)) == prev);
        }
        i += 1;
    }
    assert(entries@.take(entries@.len() as int) == entries@);
    r
}

/// List all `.jpg` files (case-insensitive extension check) of a listing
/// of `dir`, as paths under `dir`.
pub fn list_jpg_files(dir: &str, entries: &Vec<FileEntry>) -> (r: Vec<String>)
    ensures
        views(r@) == jpg_paths(dir@, entries@),
{
    let idx = jpg_indices(entries);
    let mut r: Vec<String> = Vec::new();
    let mut k: usize = 0;
    while k < idx.len()
        invariant
            k <= idx.len(),
            idx@.len() == jpg_entries(entries@).len(),
            forall|j: int| 0 <= j < idx@.len() ==> #[trigger] idx@[j] < entries@.len(),
            forall|j: int|
                0 <= j < idx@.len() ==> jpg_entries(entries@)[j] == entries@[#[trigger] idx@[j] as int],
            views(r@) == jpg_paths(dir@, entries@).take(k as int),
        decreases idx.len() - k,
    {
        let ghost before = views(r@);
        let p = join_path(dir, entries[idx[k]].name.as_str());
        r.push(p);
        assert(jpg_entries(entries@)[k as int] == entries@[idx@[k as int] as int]);
        assert(views(r@) == before.push(p@));
        assert(jpg_paths(dir@, entries@).take(k + 1) == jpg_paths(dir@, entries@).take(k as int).push(
            jpg_paths(dir@, entries@)[k as int],
        ));
        k += 1;
    }
    assert(jpg_paths(dir@, entries@).take(idx@.len() as int) == jpg_paths(dir@, entries@));
    r
}

/// Count JPG files in a listing.
pub fn count_jpg_files(entries: &Vec<FileEntry>) -> (n: usize)
    ensures
        n == jpg_entries(entries@).len(),
{
    jpg_indices(entries).len()
}

/// `rand::thread_rng().gen_range(0..n)`.
/// Trusted: the result is below `n`; which value comes is chance.
#[verifier::external_body]
fn random_below(n: usize) -> (r: usize)
    requires
        n > 0,
    ensures
        r < n,
{
    rand::Rng::gen_range(&mut rand::thread_rng(), 0..n)
}

/// `rand::random::<u32>()`.
/// Trusted: nothing is promised of the value, which is chance.
#[verifier::external_body]
fn random_u32() -> u32 {
    rand::random()
}

/// The time since the Unix epoch in nanoseconds (`SystemTime::now()
/// .duration_since(UNIX_EPOCH)` in nanoseconds), `None` for a clock set
/// before the epoch. Trusted: nothing is promised of the value, which is
/// the machine's clock.
#[verifier::external_body]
fn unix_time_nanos() -> Option<u128> {
    std::time::SystemTime::now().duration_since(std::time::UNIX_EPOCH).ok().map(|d| d.as_nanos())
}

impl CacheManager {
    /// The base directory.
    pub closed spec fn base(&self) -> Seq<char> {
        self.base_dir@
    }

    /// The stock directory of a mode: `base_dir/sfw` or `base_dir/nsfw`.
    pub open spec fn stock_path(&self, nsfw: bool) -> Seq<char> {
        join(self.base(), mode_dir(nsfw))
    }

    /// The used directory of a mode: `base_dir/used/sfw` or `base_dir/used/nsfw`.
    pub open spec fn used_path(&self, nsfw: bool) -> Seq<char> {
        join(join(self.base(), "used"@), mode_dir(nsfw))
    }

    /// Create a new CacheManager with the given base directory.
    ///
    /// The base directory is typically `~/.cache/fwaifu`.
    pub fn new(base_dir: String) -> (c: CacheManager)
        ensures
            c.base() == base_dir@,
    {
        CacheManager { base_dir }
    }

    /// Get the stock directory path for a given mode.
    ///
    /// Returns `base_dir/sfw` or `base_dir/nsfw`.
    pub fn stock_dir(&self, nsfw: bool) -> (r: String)
        ensures
            r@ == self.stock_path(nsfw),
    {
        let dir_name = if nsfw { "nsfw" } else { "sfw" };
        join_path(self.base_dir.as_str(), dir_name)
    }

    /// Get the used directory path for a given mode.
    ///
    /// Returns `base_dir/used/sfw` or `base_dir/used/nsfw`.
    pub fn used_dir(&self, nsfw: bool) -> (r: String)
        ensures
            r@ == self.used_path(nsfw),
    {
        let dir_name = if nsfw { "nsfw" } else { "sfw" };
        let used = join_path(self.base_dir.as_str(), "used");
        join_path(used.as_str(), dir_name)
    }

    /// Count JPG files (by `.jpg` extension, case-insensitive) in a listing
    /// of the stock directory of the mode.
    pub fn stock_count(&self, nsfw: bool, stock_listing: &Vec<FileEntry>) -> (n: usize)
        ensures
            n == jpg_entries(stock_listing@).len(),
    {
        count_jpg_files(stock_listing)
    }

    /// The image of the stock directory at position `index` of its listing's
    /// images; `None` where there is no such image.
    pub fn select_at(&self, nsfw: bool, stock_listing: &Vec<FileEntry>, index: usize) -> (r:
        Option<String>)
        ensures
            r matches Some(p) ==> index < jpg_paths(self.stock_path(nsfw), stock_listing@).len()
                && p@ == jpg_paths(self.stock_path(nsfw), stock_listing@)[index as int],
            r is None ==> index >= jpg_paths(self.stock_path(nsfw), stock_listing@).len(),
    {
        let dir = self.stock_dir(nsfw);
        let files = list_jpg_files(dir.as_str(), stock_listing);
        if index < files.len() {
            Some(files[index].clone())
        } else {
            None
        }
    }

    /// Select a random JPG file from a listing of the stock directory.
    ///
    /// Returns `None` if the directory holds no image.
    pub fn select_random(&self, nsfw: bool, stock_listing: &Vec<FileEntry>) -> (r: Option<String>)
        ensures
            r is None <==> jpg_entries(stock_listing@).len() == 0,
            r matches Some(p) ==> jpg_paths(self.stock_path(nsfw), stock_listing@).contains(p@),
    {
        let n = count_jpg_files(stock_listing);
        if n == 0 {
            return None;
        }
        let idx = random_below(n);
        let r = self.select_at(nsfw, stock_listing, idx);
        assert(r matches Some(p) ==> jpg_paths(self.stock_path(nsfw), stock_listing@)[idx as int] == p@);
        r
    }

    /// Where `move_to_used` puts a file: the used directory of the mode,
    /// under the file's own name; an error where the path has no file name.
    pub fn move_to_used(&self, file_path: &str, nsfw: bool) -> (r: Result<String, CacheError>)
        ensures
            match r {
                Ok(dest) => file_name(file_path@) matches Some(n) && dest@ == join(
                    self.used_path(nsfw),
                    n,
                ),
                Err(e) => file_name(file_path@) is None && e == CacheError::NoFileName,
            },
    {
        match path_file_name(file_path) {
            Some(name) => {
                let dir = self.used_dir(nsfw);
                Ok(join_path(dir.as_str(), name.as_str()))
            },
            None => Err(CacheError::NoFileName),
        }
    }

    /// The used images to delete so that at most `max_used` remain, given a
    /// listing of the used directory of the mode: the oldest ones (by
    /// modification time).
    pub fn cleanup_used(&self, nsfw: bool, used_listing: &Vec<FileEntry>, max_used: u32) -> (r: Vec<
        String,
    >)
        ensures
            views(r@) == excess_files(self.used_path(nsfw), used_listing@, max_used as nat),
    {
        let dir = self.used_dir(nsfw);
        files_to_remove(dir.as_str(), used_listing, max_used as usize)
    }

    /// The stock images to delete so that at most `max_limit` remain, given
    /// a listing of the stock directory of the mode: the oldest ones.
    pub fn cleanup_excess_stock(
        &self,
        nsfw: bool,
        stock_listing: &Vec<FileEntry>,
        max_limit: u32,
    ) -> (r: Vec<String>)
        ensures
            views(r@) == excess_files(self.stock_path(nsfw), stock_listing@, max_limit as nat),
    {
        let dir = self.stock_dir(nsfw);
        files_to_remove(dir.as_str(), stock_listing, max_limit as usize)
    }

    /// Generate a unique filename.
    ///
    /// SFW format: `waifu_{timestamp_nanos}_{random}.jpg`
    /// NSFW format: `waifu_nsfw_{timestamp_nanos}_{random}.jpg`
    pub fn generate_filename(&self, nsfw: bool) -> (r: String)
        ensures
            exists|nanos: u128, random: u32| r@ == image_file_name(nsfw, nanos, random),
    {
        let nanos: u128 = match unix_time_nanos() {
            Some(n) => n,
            None => 0,
        };
        let random = random_u32();
        filename_from(nsfw, nanos, random)
    }
}

/// The image found newest in two used listings: the index into
/// `jpg_entries(sfw) + jpg_entries(nsfw)` of the first entry with the
/// latest modification time.
pub open spec fn is_newest_at(all: Seq<FileEntry>, k: int) -> bool {
    &&& 0 <= k < all.len()
    &&& forall|j: int| 0 <= j < all.len() ==> #[trigger] all[j].modified <= all[k].modified
    &&& forall|j: int| 0 <= j < k ==> #[trigger] all[j].modified < all[k].modified
}

impl CacheManager {
    /// The last displayed image (for `--save`), given listings of the two
    /// used directories: the most recently modified image of either, the
    /// SFW one first where two are equally recent; with whether it is NSFW.
    /// `None` where neither holds an image.
    pub fn find_last_displayed(&self, sfw_used: &Vec<FileEntry>, nsfw_used: &Vec<FileEntry>) -> (r:
        Option<(String, bool)>)
        ensures
            ({
                let all = jpg_entries(sfw_used@) + jpg_entries(nsfw_used@);
                let ns = jpg_entries(sfw_used@).len() as int;
                match r {
                    None => all.len() == 0,
                    Some((p, nsfw)) => exists|k: int|
                        #![trigger all[k]]
                        is_newest_at(all, k) && nsfw == (k >= ns) && p@ == join(
                            self.used_path(nsfw),
                            all[k].name@,
                        ),
                }
            }),
    {
        let si = jpg_indices(sfw_used);
        let ni = jpg_indices(nsfw_used);
        let ghost js = jpg_entries(sfw_used@);
        let ghost jn = jpg_entries(nsfw_used@);
        let ghost all = js + jn;
        let ghost ns = js.len() as int;
        if si.len() == 0 && ni.len() == 0 {
            return None;
        }
        // The best so far: an index into the SFW images, or into the NSFW ones.
        let mut best_nsfw = si.len() == 0;
        let mut best: usize = 0;
        let mut best_time: i128 = if si.len() > 0 { sfw_used[si[0]].modified } else { nsfw_used[ni[0]].modified };
        let ghost mut bk: int = 0;
        assert(all[0] == (if si@.len() > 0 { sfw_used@[si@[0] as int] } else { nsfw_used@[ni@[0] as int] }));
        let mut k: usize = 1;
        while k < si.len()
            invariant
                si@.len() > 0 ==> 1 <= k <= si@.len(),
                si@.len() == 0 ==> best_nsfw && best == 0 && bk == 0 && best_time == all[0].modified,
                all == js + jn,
                ns == js.len(),
                si@.len() == js.len(),
                ni@.len() == jn.len(),
                forall|j: int| 0 <= j < si@.len() ==> #[trigger] si@[j] < sfw_used@.len(),
                forall|j: int| 0 <= j < si@.len() ==> js[j] == sfw_used@[#[trigger] si@[j] as int],
                si@.len() > 0 ==> !best_nsfw && best < k && bk == best,
                best_time == all[bk].modified,
                si@.len() > 0 ==> forall|j: int| 0 <= j < k ==> #[trigger] all[j].modified <= best_time,
                forall|j: int| 0 <= j < bk ==> #[trigger] all[j].modified < best_time,
            decreases si@.len() - k,
        {
            let t = sfw_used[si[k]].modified;
            assert(all[k as int].modified == t);
            if t > best_time {
                best = k;
                best_time = t;
                proof {
                    bk = k as int;
                }
            }
            k += 1;
        }
        let mut m: usize = if si.len() > 0 { 0 } else { 1 };
        while m < ni.len()
            invariant
                m <= ni@.len(),
                si@.len() == 0 ==> m >= 1,
                all == js + jn,
                ns == js.len(),
                si@.len() == js.len(),
                ni@.len() == jn.len(),
                forall|j: int| 0 <= j < si@.len() ==> #[trigger] si@[j] < sfw_used@.len(),
                forall|j: int| 0 <= j < si@.len() ==> js[j] == sfw_used@[#[trigger] si@[j] as int],
                forall|j: int| 0 <= j < ni@.len() ==> #[trigger] ni@[j] < nsfw_used@.len(),
                forall|j: int| 0 <= j < ni@.len() ==> jn[j] == nsfw_used@[#[trigger] ni@[j] as int],
                best_nsfw ==> best < m && bk == ns + best,
                !best_nsfw ==> best < si@.len() && bk == best,
                0 <= bk < ns + m,
                best_time == all[bk].modified,
                forall|j: int| 0 <= j < ns + m ==> #[trigger] all[j].modified <= best_time,
                forall|j: int| 0 <= j < bk ==> #[trigger] all[j].modified < best_time,
            decreases ni@.len() - m,
        {
            let t = nsfw_used[ni[m]].modified;
            assert(all[ns + m].modified == t);
            if t > best_time {
                best = m;
                best_nsfw = true;
                best_time = t;
                proof {
                    bk = ns + m;
                }
            }
            m += 1;
        }
        let name = if !best_nsfw { &sfw_used[si[best]].name } else { &nsfw_used[ni[best]].name };
        assert(all[bk] == (if !best_nsfw { sfw_used@[si@[best as int] as int] } else { nsfw_used@[ni@[best as int] as int] }));
        let dir = self.used_dir(best_nsfw);
        let p = join_path(dir.as_str(), name.as_str());
        assert(is_newest_at(all, bk));
        assert(best_nsfw == (bk >= ns));
        Some((p, best_nsfw))
    }

    /// The images that clearing the cache of one mode deletes: those of its
    /// stock and used directories, given their listings.
    pub fn clean_all(&self, nsfw: bool, stock_listing: &Vec<FileEntry>, used_listing: &Vec<FileEntry>) -> (r:
        Vec<String>)
        ensures
            views(r@) == jpg_paths(self.stock_path(nsfw), stock_listing@) + jpg_paths(
                self.used_path(nsfw),
                used_listing@,
            ),
    {
        let stock = self.stock_dir(nsfw);
        let used = self.used_dir(nsfw);
        let mut r = list_jpg_files(stock.as_str(), stock_listing);
        let ghost first = views(r@);
        let mut more = list_jpg_files(used.as_str(), used_listing);
        let ghost second = views(more@);
        r.append(&mut more);
        assert(views(r@) =~= first + second);
        r
    }
}

/// The file name of an image fetched at `nanos` (nanoseconds since the
/// epoch) with the random tag `random` (written in lower-case hex).
pub fn filename_from(nsfw: bool, nanos: u128, random: u32) -> (r: String)
    ensures
        r@ == image_file_name(nsfw, nanos, random),
{
    let mut r = String::new();
    if nsfw {
        r.append("waifu_nsfw");
        proof {
            reveal_strlit("waifu_nsfw");
        }
    } else {
        r.append("waifu");
        proof {
            reveal_strlit("waifu");
        }
    }
    push_char(&mut r, '_');
    push_numeral(&mut r, nanos, 10);
    push_char(&mut r, '_');
    push_numeral(&mut r, random as u128, 16);
    push_char(&mut r, '.');
    push_char(&mut r, 'j');
    push_char(&mut r, 'p');
    push_char(&mut r, 'g');
    assert(r@ =~= image_file_name(nsfw, nanos, random));
    r
}

/// How many of the entries `idx[..m]` are older than entry `idx[i]`.
fn count_older(entries: &Vec<FileEntry>, idx: &Vec<usize>, i: usize) -> (n: usize)
    requires
        i < idx.len(),
        forall|k: int| 0 <= k < idx@.len() ==> idx@[k] < entries@.len(),
    ensures
        n == rank(idx@.map_values(|j: usize| entries@[j as int]), i as int),
{
    let ghost js = idx@.map_values(|j: usize| entries@[j as int]);
    let mi = entries[idx[i]].modified;
    let mut n: usize = 0;
    let mut m: usize = 0;
    while m < idx.len()
        invariant
            m <= idx.len(),
            i < idx.len(),
            forall|k: int| 0 <= k < idx@.len() ==> idx@[k] < entries@.len(),
            js == idx@.map_values(|j: usize| entries@[j as int]),
            mi == js[i as int].modified,
            n <= m,
            n == rank_upto(js, i as int, m as int),
        decreases idx.len() - m,
    {
        let mm = entries[idx[m]].modified;
        assert(js[m as int].modified == mm);
        if mm < mi || (mm == mi && m < i) {
            n += 1;
        }
        m += 1;
    }
    n
}

/// Remove the oldest files from a directory until file count ≤ max_count:
/// the image files of the listing of `dir` to delete.
pub fn files_to_remove(dir: &str, entries: &Vec<FileEntry>, max_count: usize) -> (r: Vec<String>)
    ensures
        views(r@) == excess_files(dir@, entries@, max_count as nat),
{
    let idx = jpg_indices(entries);
    let ghost js = jpg_entries(entries@);
    assert(idx@.map_values(|j: usize| entries@[j as int]) =~= js);
    let mut r: Vec<String> = Vec::new();
    if idx.len() <= max_count {
        assert(views(r@) =~= Seq::<Seq<char>>::empty());
        return r;
    }
    let excess = idx.len() - max_count;
    let mut k: usize = 0;
    while k < idx.len()
        invariant
            k <= idx.len(),
            excess == idx@.len() - max_count,
            idx@.len() == js.len(),
            js == jpg_entries(entries@),
            forall|j: int| 0 <= j < idx@.len() ==> #[trigger] idx@[j] < entries@.len(),
            idx@.map_values(|j: usize| entries@[j as int]) == js,
            views(r@) == oldest_upto(dir@, js, excess as nat, k as int),
        decreases idx.len() - k,
    {
        let rk = count_older(entries, &idx, k);
        if rk < excess {
            let ghost before = views(r@);
            let p = join_path(dir, entries[idx[k]].name.as_str());
            r.push(p);
            assert(views(r@) == before.push(p@));
            assert(js[k as int] == entries@[idx@[k as int] as int]);
        }
        k += 1;
    }
    r
}

// ───────────────────────── laws ─────────────────────────

/// A name that `generate_filename` gives is an image name: a downloaded
/// image is counted, picked and cleaned up like every other stock image.
pub proof fn law_generated_name_is_jpg(nsfw: bool, nanos: u128, random: u32)
    ensures
        is_jpg_name(image_file_name(nsfw, nanos, random)),
{
    let s = image_file_name(nsfw, nanos, random);
    let n = s.len();
    assert(s[n - 1] == 'g' && s[n - 2] == 'p' && s[n - 3] == 'j' && s[n - 4] == '.');
    let t1 = s.drop_last();
    let t2 = t1.drop_last();
    let t3 = t2.drop_last();
    assert(t1.last() == 'p');
    assert(t2.last() == 'j');
    assert(t3.last() == '.');
    assert(crate::paths::last_index(t3, '.') == n - 4);
    assert(crate::paths::last_index(t2, '.') == n - 4);
    assert(crate::paths::last_index(t1, '.') == n - 4);
    assert(crate::paths::last_index(s, '.') == n - 4);
    assert(s.skip(n - 3) =~= seq!['j', 'p', 'g']);
}

proof fn lemma_rank_upto_mono(js: Seq<FileEntry>, a: int, b: int, m: int)
    requires
        0 <= a < js.len(),
        0 <= b < js.len(),
        m <= js.len(),
        js[b].modified < js[a].modified,
    ensures
        rank_upto(js, a, m) >= rank_upto(js, b, m) + (if 0 <= b < m { 1int } else { 0int }),
    decreases m,
{
    if m > 0 {
        lemma_rank_upto_mono(js, a, b, m - 1);
    }
}

/// Trimming keeps the newest: every image that the trim deletes is no
/// newer than any image it keeps.
pub proof fn law_trim_deletes_oldest(js: Seq<FileEntry>, excess: nat, a: int, b: int)
    requires
        0 <= a < js.len(),
        0 <= b < js.len(),
        rank(js, a) < excess,
        rank(js, b) >= excess,
    ensures
        js[a].modified <= js[b].modified,
{
    if js[b].modified < js[a].modified {
        lemma_rank_upto_mono(js, a, b, js.len() as int);
    }
}

/// The four directories of a cache (stock and used, for each mode) are
/// four different paths.
pub proof fn law_cache_dirs_distinct(c: CacheManager)
    ensures
        c.stock_path(false) != c.stock_path(true),
        c.used_path(false) != c.used_path(true),
        c.stock_path(false) != c.used_path(false),
        c.stock_path(false) != c.used_path(true),
        c.stock_path(true) != c.used_path(false),
        c.stock_path(true) != c.used_path(true),
{
    reveal_strlit("sfw");
    reveal_strlit("nsfw");
    reveal_strlit("used");
    let b = c.base();
    let u = join(b, "used"@);
    assert(u.len() > 0 && u.last() != '/') by {
        assert(u.last() == 'd');
    }
    assert(join(u, "sfw"@).len() == u.len() + 4);
    assert(join(u, "nsfw"@).len() == u.len() + 5);
    assert(u.len() >= b.len() + 4);
    assert(join(b, "sfw"@).len() <= b.len() + 4);
    assert(join(b, "nsfw"@).len() <= b.len() + 5);
    assert(join(b, "sfw"@).len() + 1 == join(b, "nsfw"@).len());
}

proof fn lemma_rank_upto_bound(js: Seq<FileEntry>, i: int, m: int)
    requires
        0 <= i < js.len(),
        0 <= m <= js.len(),
    ensures
        rank_upto(js, i, m) + (if i < m { 1int } else { 0int }) <= m,
    decreases m,
{
    if m > 0 {
        lemma_rank_upto_bound(js, i, m - 1);
    }
}

proof fn lemma_rank_upto_older(js: Seq<FileEntry>, a: int, b: int, m: int)
    requires
        0 <= a < js.len(),
        0 <= b < js.len(),
        0 <= m <= js.len(),
        older(js, b, a),
    ensures
        rank_upto(js, a, m) >= rank_upto(js, b, m) + (if b < m { 1int } else { 0int }),
    decreases m,
{
    if m > 0 {
        lemma_rank_upto_older(js, a, b, m - 1);
    }
}

/// Distinct image entries have distinct positions in the age order.
proof fn lemma_rank_injective(js: Seq<FileEntry>, i: int, j: int)
    requires
        0 <= i < js.len(),
        0 <= j < js.len(),
        i != j,
    ensures
        rank(js, i) != rank(js, j),
{
    if older(js, i, j) {
        lemma_rank_upto_older(js, j, i, js.len() as int);
    } else {
        assert(older(js, j, i));
        lemma_rank_upto_older(js, i, j, js.len() as int);
    }
}

/// The indices of the first `m` entries whose position is below `excess`.
spec fn young_set(js: Seq<FileEntry>, excess: nat, m: int) -> Set<int> {
    Set::new(|i: int| 0 <= i < m && rank(js, i) < excess)
}

proof fn lemma_oldest_upto_len(dir: Seq<char>, js: Seq<FileEntry>, excess: nat, m: int)
    requires
        0 <= m <= js.len(),
    ensures
        young_set(js, excess, m).finite(),
        oldest_upto(dir, js, excess, m).len() == young_set(js, excess, m).len(),
    decreases m,
{
    if m == 0 {
        assert(young_set(js, excess, m) =~= Set::<int>::empty());
    } else {
        lemma_oldest_upto_len(dir, js, excess, m - 1);
        if rank(js, m - 1) < excess {
            assert(young_set(js, excess, m) =~= young_set(js, excess, m - 1).insert(m - 1));
        } else {
            assert(young_set(js, excess, m) =~= young_set(js, excess, m - 1));
        }
    }
}

/// Trimming removes exactly the surplus: where a listing holds more images
/// than the limit, exactly as many are deleted as exceed it (so the limit
/// is what remains); otherwise none.
pub proof fn law_trim_removes_surplus(dir: Seq<char>, es: Seq<FileEntry>, max_count: nat)
    ensures
        excess_files(dir, es, max_count).len() == (if jpg_entries(es).len() > max_count {
            jpg_entries(es).len() - max_count
        } else {
            0
        }),
{
    let js = jpg_entries(es);
    let n = js.len() as int;
    if n > max_count {
        let e = (n - max_count) as nat;
        let all = set_int_range(0, n);
        let f = |i: int| rank(js, i) as int;
        lemma_int_range(0, n);
        assert forall|i: int, j: int| all.contains(i) && all.contains(j) && f(i) == f(j) implies i
            == j by {
            if i != j {
                lemma_rank_injective(js, i, j);
            }
        }
        assert(vstd::relations::injective_on(f, all));
        lemma_map_size(all, all.map(f), f);
        assert forall|r: int| all.map(f).contains(r) implies all.contains(r) by {
            let i = choose|i: int| all.contains(i) && f(i) == r;
            lemma_rank_upto_bound(js, i, n);
        }
        assert(all.map(f).subset_of(all));
        lemma_subset_equality(all.map(f), all);
        let young = young_set(js, e, n);
        let low = set_int_range(0, e as int);
        lemma_int_range(0, e as int);
        assert forall|r: int| young.map(f).contains(r) <==> low.contains(r) by {
            if low.contains(r) {
                assert(all.contains(r));
                assert(all.map(f).contains(r));
                let i = choose|i: int| all.contains(i) && f(i) == r;
                assert(young.contains(i));
            }
            if young.map(f).contains(r) {
                let i = choose|i: int| young.contains(i) && f(i) == r;
            }
        }
        assert(young.map(f) =~= low);
        lemma_oldest_upto_len(dir, js, e, n);
        assert forall|i: int, j: int| young.contains(i) && young.contains(j) && f(i) == f(j) implies i
            == j by {
            if i != j {
                lemma_rank_injective(js, i, j);
            }
        }
        lemma_map_size(young, low, f);
    }
}

/// The first `n` image entries whose position from the oldest is at
/// least `excess`: those that a trim of `excess` images keeps, in listing
/// order.
pub open spec fn kept_upto(js: Seq<FileEntry>, excess: nat, n: int) -> Seq<FileEntry>
    decreases n,
{
    if n <= 0 {
        Seq::empty()
    } else {
        let r = kept_upto(js, excess, n - 1);
        if rank(js, n - 1) < excess {
            r
        } else {
            r.push(js[n - 1])
        }
    }
}

/// The images that a listing holds after trimming it to `max_count`:
/// all of them where there are at most `max_count`, else those that the
/// trim does not delete.
pub open spec fn after_trim(es: Seq<FileEntry>, max_count: nat) -> Seq<FileEntry> {
    let js = jpg_entries(es);
    if js.len() <= max_count {
        js
    } else {
        kept_upto(js, (js.len() - max_count) as nat, js.len() as int)
    }
}

proof fn lemma_jpg_entries_are_jpg(es: Seq<FileEntry>)
    ensures
        forall|i: int| 0 <= i < jpg_entries(es).len() ==> is_jpg_entry(#[trigger] jpg_entries(es)[i]),
    decreases es.len(),
{
    if es.len() > 0 {
        lemma_jpg_entries_are_jpg(es.drop_last());
        let r = jpg_entries(es.drop_last());
        if is_jpg_entry(es.last()) {
            assert forall|i: int| 0 <= i < r.push(es.last()).len() implies is_jpg_entry(
                #[trigger] r.push(es.last())[i],
            ) by {
                if i < r.len() {
                    assert(r.push(es.last())[i] == r[i]);
                }
            }
        }
    }
}

proof fn lemma_all_jpg(es: Seq<FileEntry>)
    requires
        forall|i: int| 0 <= i < es.len() ==> is_jpg_entry(#[trigger] es[i]),
    ensures
        jpg_entries(es) == es,
    decreases es.len(),
{
    if es.len() > 0 {
        assert forall|i: int| 0 <= i < es.drop_last().len() implies is_jpg_entry(
            #[trigger] es.drop_last()[i],
        ) by {
            assert(es.drop_last()[i] == es[i]);
        }
        lemma_all_jpg(es.drop_last());
        assert(es.drop_last().push(es.last()) == es);
    }
}

proof fn lemma_kept_upto(dir: Seq<char>, js: Seq<FileEntry>, excess: nat, n: int)
    requires
        0 <= n <= js.len(),
        forall|i: int| 0 <= i < js.len() ==> is_jpg_entry(#[trigger] js[i]),
    ensures
        kept_upto(js, excess, n).len() + oldest_upto(dir, js, excess, n).len() == n,
        forall|i: int| 0 <= i < kept_upto(js, excess, n).len() ==> is_jpg_entry(
            #[trigger] kept_upto(js, excess, n)[i],
        ),
    decreases n,
{
    if n > 0 {
        lemma_kept_upto(dir, js, excess, n - 1);
        let r = kept_upto(js, excess, n - 1);
        if rank(js, n - 1) >= excess {
            assert forall|i: int| 0 <= i < r.push(js[n - 1]).len() implies is_jpg_entry(
                #[trigger] r.push(js[n - 1])[i],
            ) by {
                if i < r.len() {
                    assert(r.push(js[n - 1])[i] == r[i]);
                }
            }
        }
    }
}

/// Trimming a second time deletes nothing: the images that a trim to
/// `max_count` leaves are at most `max_count`, so a trim of what it left,
/// with the same limit, finds nothing to delete. In particular a listing
/// already within the limit is never trimmed. (The trim deletes its images
/// by path, so with the distinct names of a directory what remains is
/// `after_trim`.)
pub proof fn law_trim_twice_deletes_nothing(dir: Seq<char>, es: Seq<FileEntry>, max_count: nat)
    ensures
        jpg_entries(es).len() <= max_count ==> excess_files(dir, es, max_count).len() == 0,
        after_trim(es, max_count).len() == (if jpg_entries(es).len() > max_count {
            max_count as int
        } else {
            jpg_entries(es).len() as int
        }),
        after_trim(es, max_count).len() + excess_files(dir, es, max_count).len() == jpg_entries(
            es,
        ).len(),
        excess_files(dir, after_trim(es, max_count), max_count).len() == 0,
{
    let js = jpg_entries(es);
    lemma_jpg_entries_are_jpg(es);
    law_trim_removes_surplus(dir, es, max_count);
    let kept = after_trim(es, max_count);
    if js.len() > max_count {
        let e = (js.len() - max_count) as nat;
        lemma_kept_upto(dir, js, e, js.len() as int);
    }
    assert forall|i: int| 0 <= i < kept.len() implies is_jpg_entry(#[trigger] kept[i]) by {
        if js.len() > max_count {
            lemma_kept_upto(dir, js, (js.len() - max_count) as nat, js.len() as int);
        }
    }
    lemma_all_jpg(kept);
}

} // verus!

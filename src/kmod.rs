//! Kernel module loading decisions: where a module file is looked for,
//! whether it must be decompressed first, and how the kernel's answer is
//! reported.
use vstd::prelude::*;
use crate::text::{str_eq, join2};
use crate::archive::{zstd_decoded, zstd_decompress, opt_bytes};

verus! {

/// `p` occurs somewhere in `s`.
pub open spec fn contains_seq(s: Seq<char>, p: Seq<char>) -> bool {
    exists|i: int| 0 <= i && i + p.len() <= s.len() && #[trigger] s.subrange(i, i + p.len()) == p
}

/// `s` ends with `p`.
pub open spec fn is_suffix(p: Seq<char>, s: Seq<char>) -> bool {
    p.len() <= s.len() && s.subrange(s.len() - p.len(), s.len() as int) == p
}

/// A bare module name, with neither a `/` nor a `.`, is searched for in
/// the module tree; anything else is a path relative to it.
pub open spec fn is_bare_name(name: Seq<char>) -> bool {
    !name.contains('/') && !name.contains('.')
}

/// How a module load ended, as the boot log reports it.
#[derive(PartialEq, Eq, Structural, Clone, Copy, Debug)]
pub enum LoadReport {
    /// The module is now in the kernel.
    Loaded,
    /// The kernel had it already: a warning, not an error.
    AlreadyLoaded,
    /// No module file was found.
    NotFound,
    /// The kernel refused it: an error, and the boot goes on.
    Failed,
}

/// Whether `p` occurs in `s`.
pub fn contains_str(s: &str, p: &str) -> (r: bool)
    ensures
        r == contains_seq(s@, p@),
{
    let n = s.unicode_len();
    let m = p.unicode_len();
    if m > n {
        return false;
    }
    let mut i: usize = 0;
    loop
        invariant
            n == s@.len(),
            m == p@.len(),
            m <= n,
            i <= n - m,
            forall|k: int| 0 <= k < i ==> #[trigger] s@.subrange(k, k + m) != p@,
        ensures
            forall|k: int| 0 <= k <= n - m ==> #[trigger] s@.subrange(k, k + m) != p@,
        decreases n - m - i,
    {
        if str_eq(s.substring_char(i, i + m), p) {
            return true;
        }
        assert(s@.subrange(i as int, i + m) != p@);
        if i == n - m {
            break;
        }
        i = i + 1;
    }
    proof {
        assert forall|k: int| 0 <= k && k + p@.len() <= s@.len() implies #[trigger] s@.subrange(k, k + p@.len())
            != p@ by {
            assert(k <= n - m);
        }
    }
    false
}

/// Whether `s` ends with `p`.
pub fn ends_with(s: &str, p: &str) -> (r: bool)
    ensures
        r == is_suffix(p@, s@),
{
    let n = s.unicode_len();
    let m = p.unicode_len();
    if m > n {
        return false;
    }
    str_eq(s.substring_char(n - m, n), p)
}

fn has_char(s: &str, c: char) -> (r: bool)
    ensures
        r == s@.contains(c),
{
    let n = s.unicode_len();
    let mut i: usize = 0;
    while i < n
        invariant
            n == s@.len(),
            i <= n,
            forall|k: int| 0 <= k < i ==> s@[k] != c,
        decreases n - i,
    {
        if s.get_char(i) == c {
            return true;
        }
        i = i + 1;
    }
    false
}

/// Modprobe: loads kernel modules from `/lib/modules/<release>`, where they
/// are plain ELF objects or zstd-compressed ones.
pub struct KModProbe {
    km_path: String,
}

impl View for KModProbe {
    type V = Seq<char>;

    closed spec fn view(&self) -> Seq<char> {
        self.km_path@
    }
}

impl KModProbe {
    /// The loader for the running kernel release.
    pub fn new(release: &str) -> (r: KModProbe)
        ensures
            r@ == "/lib/modules/"@ + release@,
    {
        KModProbe { km_path: join2("/lib/modules/", release) }
    }

    /// The module tree.
    pub fn get_root(&self) -> (r: &str)
        ensures
            r@ == self@,
    {
        self.km_path.as_str()
    }

    /// Whether `name` is searched for rather than taken as a path.
    pub fn needs_search(name: &str) -> (r: bool)
        ensures
            r == is_bare_name(name@),
    {
        !has_char(name, '/') && !has_char(name, '.')
    }

    /// The file of a module named by a path relative to the module tree.
    pub fn module_file(&self, name: &str) -> (r: String)
        ensures
            r@ == self@ + "/"@ + name@,
    {
        join2(join2(self.km_path.as_str(), "/").as_str(), name)
    }

    /// Whether a file found while searching the tree serves for `name`:
    /// its file name contains the name.
    pub fn matches_module(file_name: &str, name: &str) -> (r: bool)
        ensures
            r == contains_seq(file_name@, name@),
    {
        contains_str(file_name, name)
    }

    /// Whether a module file is zstd-compressed, and must be unpacked in
    /// memory before the kernel gets it.
    pub fn is_compressed(file_name: &str) -> (r: bool)
        ensures
            r == is_suffix(".zst"@, file_name@),
    {
        ends_with(file_name, ".zst")
    }

    /// The image handed to the kernel for the module file `file_name` with
    /// contents `raw`: unpacked when the file is zstd-compressed, else as
    /// read. `None` when a compressed file does not unpack.
    pub fn module_image(file_name: &str, raw: Vec<u8>) -> (r: Option<Vec<u8>>)
        ensures
            !is_suffix(".zst"@, file_name@) ==> r == Some(raw),
            is_suffix(".zst"@, file_name@) ==> opt_bytes(r) == zstd_decoded(raw@),
    {
        if Self::is_compressed(file_name) {
            zstd_decompress(raw.as_slice())
        } else {
            Some(raw)
        }
    }

    /// How a load attempt is reported: a missing file, success, a module
    /// the kernel already has, or another refusal.
    pub fn feedback(found: bool, loaded: bool, already_present: bool) -> (r: LoadReport)
        ensures
            !found ==> r == LoadReport::NotFound,
            found && loaded ==> r == LoadReport::Loaded,
            found && !loaded && already_present ==> r == LoadReport::AlreadyLoaded,
            found && !loaded && !already_present ==> r == LoadReport::Failed,
    {
        if !found {
            LoadReport::NotFound
        } else if loaded {
            LoadReport::Loaded
        } else if already_present {
            LoadReport::AlreadyLoaded
        } else {
            LoadReport::Failed
        }
    }
}

} // verus!

//! The checks a plugin directory passes entry by entry while it is
//! staged: a safe relative path, no two paths that differ only in case, at
//! most 256 entries, at most 32 MiB in all and each file within its own
//! limit. Walking the directory, refusing links and copying the files are
//! the caller's work.
use vstd::prelude::*;

use crate::paths::{file_size_limit, path_refusal, validate_file_limit, validate_relative_path, MAX_EXTRACTED_BYTES};
use crate::text::{lowercase, str_eq, to_lowercase};

verus! {

/// The most entries, files and directories together, a package may hold.
pub const MAX_FILE_COUNT: usize = 256;

/// The model of a staging tally: the lowercased paths staged so far, in
/// order, and the bytes of the files among them.
pub struct StagingView {
    pub seen: Seq<Seq<char>>,
    pub total: nat,
}

/// What a package directory has staged so far.
pub struct StagingTally {
    seen: Vec<String>,
    total: u64,
}

impl View for StagingTally {
    type V = StagingView;

    closed spec fn view(&self) -> StagingView {
        StagingView { seen: self.seen@.map_values(|s: String| s@), total: self.total as nat }
    }
}

/// Why the entry `relative` (a directory when `is_dir`, else a file of
/// `size` bytes) cannot be staged after `v`, or `None` when it can.
pub open spec fn staging_refusal(v: StagingView, relative: Seq<char>, is_dir: bool, size: u64) -> Option<
    Seq<char>,
> {
    match path_refusal(relative) {
        Some(true) => Some("unsafe Windows plugin path '"@ + relative + "'"@),
        Some(false) => Some("unsafe plugin path '"@ + relative + "'"@),
        None => if v.seen.contains(lowercase(relative)) {
            Some("plugin contains a case-insensitive path collision at '"@ + relative + "'"@)
        } else if v.seen.len() + 1 > MAX_FILE_COUNT {
            Some("plugin contains more than 256 entries"@)
        } else if is_dir {
            None
        } else if v.total + size > u64::MAX {
            Some("plugin size overflow"@)
        } else if v.total + size > MAX_EXTRACTED_BYTES {
            Some("plugin exceeds the 32 MiB extracted limit"@)
        } else if size > file_size_limit(relative) {
            Some("plugin file '"@ + relative + "' exceeds its size limit"@)
        } else {
            None
        },
    }
}

/// The tally after staging `relative`.
pub open spec fn with_entry(v: StagingView, relative: Seq<char>, is_dir: bool, size: u64) -> StagingView {
    StagingView {
        seen: v.seen.push(lowercase(relative)),
        total: if is_dir {
            v.total
        } else {
            (v.total + size) as nat
        },
    }
}

/// A tally within bounds: no two staged paths alike but for case, at
/// most 256 of them and at most 32 MiB in all.
pub open spec fn staging_bounded(v: StagingView) -> bool {
    &&& v.seen.no_duplicates()
    &&& v.seen.len() <= MAX_FILE_COUNT
    &&& v.total <= MAX_EXTRACTED_BYTES
}

impl StagingTally {
    /// Nothing staged yet.
    pub fn new() -> (r: Self)
        ensures
            r@ == (StagingView { seen: Seq::empty(), total: 0 }),
    {
        let r = StagingTally { seen: Vec::new(), total: 0 };
        assert(r@.seen =~= Seq::<Seq<char>>::empty());
        r
    }

    /// The number of entries staged.
    pub fn count(&self) -> (r: usize)
        ensures
            r == self@.seen.len(),
    {
        self.seen.len()
    }

    /// The bytes of the files staged.
    pub fn total(&self) -> (r: u64)
        ensures
            r == self@.total,
    {
        self.total
    }

    /// Stages the entry `relative`, a directory when `is_dir`, else a file
    /// of `size` bytes: refused, with the tally unchanged, when
    /// `staging_refusal` gives a reason.
    pub fn stage_entry(&mut self, relative: &str, is_dir: bool, size: u64) -> (r: Result<(), String>)
        requires
            staging_bounded(old(self)@),
        ensures
            staging_bounded(final(self)@),
            match staging_refusal(old(self)@, relative@, is_dir, size) {
                Some(e) => (r matches Err(x) && x@ == e) && final(self)@ == old(self)@,
                None => r is Ok && final(self)@ == with_entry(old(self)@, relative@, is_dir, size),
            },
    {
        let checked = validate_relative_path(relative);
        if let Err(e) = checked {
            return Err(e);
        }
        let folded = to_lowercase(relative);
        let ghost seen = self@.seen;
        let mut k: usize = 0;
        while k < self.seen.len()
            invariant
                k <= self.seen.len(),
                seen == self@.seen,
                self@ == old(self)@,
                staging_bounded(old(self)@),
                path_refusal(relative@) is None,
                folded@ == lowercase(relative@),
                seen.len() == self.seen@.len(),
                forall|j: int| 0 <= j < k ==> seen[j] != folded@,
            decreases self.seen.len() - k,
        {
            assert(seen[k as int] == self.seen@[k as int]@);
            if str_eq(self.seen[k].as_str(), folded.as_str()) {
                assert(seen.contains(folded@));
                let head = crate::text::concat("plugin contains a case-insensitive path collision at '", relative);
                return Err(crate::text::concat(head.as_str(), "'"));
            }
            k += 1;
        }
        assert(!seen.contains(folded@));
        if self.seen.len() >= MAX_FILE_COUNT {
            return Err("plugin contains more than 256 entries".to_string());
        }
        let mut total = self.total;
        if !is_dir {
            total = match self.total.checked_add(size) {
                Some(t) => t,
                None => return Err("plugin size overflow".to_string()),
            };
            if total > MAX_EXTRACTED_BYTES {
                return Err("plugin exceeds the 32 MiB extracted limit".to_string());
            }
            if let Err(e) = validate_file_limit(relative, size) {
                return Err(e);
            }
        }
        let ghost before = self@;
        self.seen.push(folded);
        self.total = total;
        assert(self@.seen =~= before.seen.push(lowercase(relative@)));
        proof {
            let s = self@.seen;
            assert forall|i: int, j: int| 0 <= i < s.len() && 0 <= j < s.len() && i != j implies s[i]
                != s[j] by {
                if i < before.seen.len() && j < before.seen.len() {
                    assert(s[i] == before.seen[i] && s[j] == before.seen[j]);
                } else if i < before.seen.len() {
                    assert(s[i] == before.seen[i]);
                } else {
                    assert(s[j] == before.seen[j]);
                }
            }
        }
        Ok(())
    }
}

/// Whatever a package directory stages, the tally stays within bounds:
/// staging an entry that `staging_refusal` lets through keeps every
/// staged path distinct but for case, at most 256 entries and at most
/// 32 MiB.
pub proof fn staging_stays_bounded(v: StagingView, relative: Seq<char>, is_dir: bool, size: u64)
    requires
        staging_bounded(v),
        staging_refusal(v, relative, is_dir, size) is None,
    ensures
        staging_bounded(with_entry(v, relative, is_dir, size)),
{
    let s = with_entry(v, relative, is_dir, size).seen;
    assert forall|i: int, j: int| 0 <= i < s.len() && 0 <= j < s.len() && i != j implies s[i] != s[j] by {
        if i < v.seen.len() && j < v.seen.len() {
            assert(s[i] == v.seen[i] && s[j] == v.seen[j]);
        } else if i < v.seen.len() {
            assert(s[i] == v.seen[i]);
        } else {
            assert(s[j] == v.seen[j]);
        }
    }
}

} // verus!

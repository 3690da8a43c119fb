//! The grammar of the pagination link header.
//!
//! A listing response carries a header of comma-separated segments,
//! each a link tagged with a relation. The segment tagged `last`
//! ends with `page=<digits>>; rel="last"`, and the digits are the
//! number of the final page. Later segments override earlier ones,
//! and a page number too large for `u32` is a malformed header.

use vstd::prelude::*;

use crate::text::{digits_value, is_digit, lemma_digits_value_prefix_le, str_eq_at};

verus! {

/// The characters that close a link segment tagged `last`.
pub open spec fn rel_last_suffix() -> Seq<char> {
    ">; rel=\"last\""@
}

/// The characters that introduce the page number inside the link.
pub open spec fn page_key() -> Seq<char> {
    "page="@
}

/// The length of the longest run of digit characters at the end of `s`.
pub open spec fn trailing_digits(s: Seq<char>) -> int
    decreases s.len(),
{
    if s.len() > 0 && is_digit(s.last()) {
        1 + trailing_digits(s.drop_last())
    } else {
        0
    }
}

/// The page number carried by the part of a segment that precedes the
/// closing suffix: the maximal digit run at its end, provided the run
/// is not empty and is introduced by `page=`.
pub open spec fn seg_core_page(core: Seq<char>) -> Option<nat> {
    let n = core.len() as int;
    let k = trailing_digits(core);
    let p = page_key().len() as int;
    if k >= 1 && n - k - p >= 0 && core.subrange(n - k - p, n - k) == page_key() {
        Some(digits_value(core.subrange(n - k, n)))
    } else {
        None
    }
}

/// The page number of one link segment, when the segment is the link
/// tagged `last`: the segment must end with `page=<digits>` followed
/// by the closing suffix.
pub open spec fn seg_last_page(s: Seq<char>) -> Option<nat> {
    let n = s.len() as int;
    let m = rel_last_suffix().len() as int;
    if n >= m && s.subrange(n - m, n) == rel_last_suffix() {
        seg_core_page(s.subrange(0, n - m))
    } else {
        None
    }
}

/// Folds one segment's page number into the value scanned so far. A
/// matching segment overrides the accumulator; one whose number does
/// not fit in `u32` makes the whole header malformed.
pub open spec fn merge_seg(v: Option<nat>, acc: Option<nat>) -> Result<Option<nat>, ()> {
    match v {
        Some(w) => if w > 0xffff_ffff {
            Err(())
        } else {
            Ok(Some(w))
        },
        None => Ok(acc),
    }
}

/// Scans the header from position `pos`, where the current segment
/// began at `seg_start` and earlier segments produced `acc`.
pub open spec fn scan_from(h: Seq<char>, pos: int, seg_start: int, acc: Option<nat>) -> Result<
    Option<nat>,
    (),
>
    decreases h.len() - pos,
{
    if pos >= h.len() {
        merge_seg(seg_last_page(h.subrange(seg_start, h.len() as int)), acc)
    } else if h[pos] == ',' {
        match merge_seg(seg_last_page(h.subrange(seg_start, pos)), acc) {
            Ok(acc2) => scan_from(h, pos + 1, pos + 1, acc2),
            Err(e) => Err(e),
        }
    } else {
        scan_from(h, pos + 1, seg_start, acc)
    }
}

/// The last page number encoded in a link header: the number of the
/// last segment tagged `last`, or `None` when no segment is, or an
/// error when a tagged segment's number does not fit in `u32`.
pub open spec fn link_last_page(h: Seq<char>) -> Result<Option<nat>, ()> {
    scan_from(h, 0, 0, None)
}

/// A link header whose `last` link carries an unusable page number.
#[derive(Clone, Copy, Debug, PartialEq, Eq, Structural)]
pub struct LinkHeaderError {}

impl LinkHeaderError {
    /// What went wrong, for the run's failure report.
    pub fn message(&self) -> (m: String)
        ensures
            m@ == "malformed pagination link header"@,
    {
        String::from_str("malformed pagination link header")
    }
}

/// How the scan of one segment ended.
enum SegScan {
    /// The segment is not a link tagged `last`.
    NoMatch,
    /// The segment's page number.
    Page(u32),
    /// The segment is tagged `last` but its number exceeds `u32`.
    TooLarge,
}

fn is_digit_char(c: char) -> (b: bool)
    ensures
        b == is_digit(c),
{
    c >= '0' && c <= '9'
}

/// Maximal digit run and `page=` introduction agree with
/// `trailing_digits`: `k` is the trailing digit run of `s` exactly
/// when the last `k` characters are digits and the one before them,
/// if any, is not.
proof fn lemma_trailing_digits_is(s: Seq<char>, k: int)
    requires
        0 <= k <= s.len(),
        forall|j: int| s.len() - k <= j < s.len() ==> is_digit(#[trigger] s[j]),
        k < s.len() ==> !is_digit(s[s.len() - k - 1]),
    ensures
        trailing_digits(s) == k,
    decreases s.len(),
{
    if s.len() == 0 {
    } else if k == 0 {
    } else {
        lemma_trailing_digits_is(s.drop_last(), k - 1);
    }
}

fn scan_segment(h: &str, start: usize, end: usize) -> (r: SegScan)
    requires
        start <= end,
        end <= h@.len(),
        h@.len() <= usize::MAX,
    ensures
        ({
            let v = seg_last_page(h@.subrange(start as int, end as int));
            match r {
                SegScan::NoMatch => v is None,
                SegScan::Page(w) => v == Some(w as nat),
                SegScan::TooLarge => v matches Some(w) && w > 0xffff_ffff,
            }
        }),
{
    let ghost seg = h@.subrange(start as int, end as int);
    let sfx: &str = ">; rel=\"last\"";
    let m: usize = sfx.unicode_len();
    if end - start < m {
        return SegScan::NoMatch;
    }
    if !str_eq_at(h, end - m, sfx) {
        proof {
            assert(seg.subrange(seg.len() - m, seg.len() as int) =~= h@.subrange(
                end - m,
                end as int,
            ));
        }
        return SegScan::NoMatch;
    }
    proof {
        assert(seg.subrange(seg.len() - m, seg.len() as int) =~= h@.subrange(end - m, end as int));
    }
    let core_end: usize = end - m;
    let ghost core = h@.subrange(start as int, core_end as int);
    proof {
        assert(core =~= seg.subrange(0, seg.len() - m));
    }
    // Count the digit run that ends right before the suffix.
    let mut k: usize = 0;
    loop
        invariant
            start <= core_end - k <= core_end <= h@.len() <= usize::MAX,
            forall|j: int| core_end - k <= j < core_end ==> is_digit(#[trigger] h@[j]),
        ensures
            0 <= k <= core_end - start,
            forall|j: int| core_end - k <= j < core_end ==> is_digit(#[trigger] h@[j]),
            core_end - k > start ==> !is_digit(h@[core_end - k - 1]),
        decreases core_end - k - start,
    {
        if core_end - k > start && is_digit_char(h.get_char(core_end - k - 1)) {
            k += 1;
        } else {
            break ;
        }
    }
    proof {
        assert(forall|j: int| 0 <= j < core.len() - k ==> core[j] == h@[start + j]);
        assert(forall|j: int| core.len() - k <= j < core.len() ==> is_digit(#[trigger] core[j]));
        lemma_trailing_digits_is(core, k as int);
    }
    if k == 0 {
        return SegScan::NoMatch;
    }
    let pk: &str = "page=";
    let p: usize = pk.unicode_len();
    if core_end - k - start < p {
        return SegScan::NoMatch;
    }
    if !str_eq_at(h, core_end - k - p, pk) {
        proof {
            assert(core.subrange(core.len() - k - p, core.len() - k) =~= h@.subrange(
                core_end - k - p,
                core_end - k,
            ));
        }
        return SegScan::NoMatch;
    }
    proof {
        assert(core.subrange(core.len() - k - p, core.len() - k) =~= h@.subrange(
            core_end - k - p,
            core_end - k,
        ));
    }
    // The segment is the `last` link; read its digits.
    let ghost run = core.subrange(core.len() - k, core.len() as int);
    proof {
        assert(run =~= h@.subrange(core_end - k, core_end as int));
        assert(seg_last_page(seg) == Some(digits_value(run)));
    }
    let run_start: usize = core_end - k;
    let mut acc: u64 = 0;
    let mut big: bool = false;
    let mut i: usize = 0;
    while i < k
        invariant
            0 <= i <= k,
            start <= run_start,
            run_start + k == core_end <= h@.len() <= usize::MAX,
            run == h@.subrange(run_start as int, (run_start + k) as int),
            forall|j: int| 0 <= j < run.len() ==> is_digit(#[trigger] run[j]),
            !big ==> acc <= 0xffff_ffff && acc == digits_value(run.subrange(0, i as int)),
            big ==> digits_value(run) > 0xffff_ffff,
        decreases k - i,
    {
        if !big {
            let c = h.get_char(run_start + i);
            proof {
                assert(run[i as int] == h@[run_start + i]);
            }
            let d: u64 = (c as u32) as u64 - 48;
            let next: u64 = acc * 10 + d;
            proof {
                assert(run.subrange(0, i + 1).drop_last() =~= run.subrange(0, i as int));
            }
            if next > 0xffff_ffff {
                big = true;
                proof {
                    lemma_digits_value_prefix_le(run, i + 1);
                }
            } else {
                acc = next;
            }
        }
        i += 1;
    }
    proof {
        assert(run.subrange(0, k as int) =~= run);
    }
    if big {
        SegScan::TooLarge
    } else {
        SegScan::Page(acc as u32)
    }
}

/// The accumulator of the running scan, as the spec sees it.
pub open spec fn opt_nat(a: Option<u32>) -> Option<nat> {
    match a {
        Some(w) => Some(w as nat),
        None => None,
    }
}

/// Reads the last-page number out of a pagination link header, as
/// `link_last_page` describes: the number of the final segment tagged
/// `last`, `None` when no segment is tagged so, and an error when a
/// tagged segment's number does not fit in `u32`.
pub fn last_page_of_link(h: &str) -> (r: Result<Option<u32>, LinkHeaderError>)
    ensures
        ({
            let s = link_last_page(h@);
            match r {
                Ok(v) => s == Ok::<Option<nat>, ()>(opt_nat(v)),
                Err(_) => s is Err,
            }
        }),
{
    let n: usize = h.unicode_len();
    let mut pos: usize = 0;
    let mut seg_start: usize = 0;
    let mut acc: Option<u32> = None;
    while pos < n
        invariant
            0 <= seg_start <= pos <= n,
            n == h@.len(),
            n <= usize::MAX,
            link_last_page(h@) == scan_from(h@, pos as int, seg_start as int, opt_nat(acc)),
        decreases n - pos,
    {
        if h.get_char(pos) == ',' {
            match scan_segment(h, seg_start, pos) {
                SegScan::NoMatch => {
                },
                SegScan::Page(w) => {
                    acc = Some(w);
                },
                SegScan::TooLarge => {
                    return Err(LinkHeaderError {});
                },
            }
            pos += 1;
            seg_start = pos;
        } else {
            pos += 1;
        }
    }
    match scan_segment(h, seg_start, n) {
        SegScan::NoMatch => Ok(acc),
        SegScan::Page(w) => Ok(Some(w)),
        SegScan::TooLarge => Err(LinkHeaderError {}),
    }
}

} // verus!

//! The line-diff engine: classifies the lines of a two-sided file
//! comparison, groups contiguous changed runs into difference
//! regions, and drives cursor-based change navigation with
//! scroll-following. The line-level sequence diff itself is an
//! outside capability; everything after it is verified.

use vstd::prelude::*;

use crate::model::views_of;
use crate::text::{spec_trim_end, trim_end};

verus! {

/// Classification of one line of an open comparison.
#[derive(Debug, Clone, Copy, PartialEq, Eq, Structural)]
pub enum DiffKind {
    Unchanged,
    Added,
    Removed,
}

/// One raw change handed back by the line-diff primitive: the line
/// as written, its classification, and its line number on each side
/// (`None` on the side the line is absent from).
#[derive(Debug, Clone)]
pub struct RawChange {
    pub kind: DiffKind,
    pub text: String,
    pub old_index: Option<usize>,
    pub new_index: Option<usize>,
}

/// Mathematical form of a [`RawChange`].
#[verifier::ext_equal]
pub struct RawChangeV {
    pub kind: DiffKind,
    pub text: Seq<char>,
    pub old_index: Option<usize>,
    pub new_index: Option<usize>,
}

impl View for RawChange {
    type V = RawChangeV;

    open spec fn view(&self) -> RawChangeV {
        RawChangeV {
            kind: self.kind,
            text: self.text@,
            old_index: self.old_index,
            new_index: self.new_index,
        }
    }
}

/// The classified change sequence of the standard line-level
/// sequence diff of two texts. It is a function of the two texts
/// alone; its value on given texts is what the outside primitive
/// computes.
pub uninterp spec fn line_diff(left: Seq<char>, right: Seq<char>) -> Seq<RawChangeV>;

/// Relies on similar's `TextDiff::from_lines` and
/// `iter_all_changes`: the classified line sequence of a standard
/// line-level sequence diff, a function of the two texts alone
/// (computed without clocks, randomness or hash-order dependence),
/// in which two identical texts produce only unchanged lines.
#[verifier::external_body]
fn line_changes(left: &str, right: &str) -> (r: Vec<RawChange>)
    ensures
        views_of(r@) == line_diff(left@, right@),
        left@ == right@ ==> forall|i: int|
            0 <= i < r@.len() ==> (#[trigger] r@[i])@.kind == DiffKind::Unchanged,
{
    let diff = similar::TextDiff::from_lines(left, right);
    let mut out: Vec<RawChange> = Vec::new();
    for change in diff.iter_all_changes() {
        let kind = match change.tag() {
            similar::ChangeTag::Equal => DiffKind::Unchanged,
            similar::ChangeTag::Delete => DiffKind::Removed,
            similar::ChangeTag::Insert => DiffKind::Added,
        };
        let (text, old_index, new_index) =
            (change.value().to_string(), change.old_index(), change.new_index());
        out.push(RawChange { kind, text, old_index, new_index });
    }
    out
}

/// One display line of an open comparison.
#[derive(Debug, Clone)]
pub struct DiffLine {
    pub text: String,
    pub kind: DiffKind,
    pub old_index: Option<usize>,
    pub new_index: Option<usize>,
}

/// Mathematical form of a [`DiffLine`].
#[verifier::ext_equal]
pub struct DiffLineV {
    pub text: Seq<char>,
    pub kind: DiffKind,
    pub old_index: Option<usize>,
    pub new_index: Option<usize>,
}

impl View for DiffLine {
    type V = DiffLineV;

    open spec fn view(&self) -> DiffLineV {
        DiffLineV {
            text: self.text@,
            kind: self.kind,
            old_index: self.old_index,
            new_index: self.new_index,
        }
    }
}

/// The display line a raw change becomes: the same line with its
/// trailing blank characters removed.
pub open spec fn spec_display_line(c: RawChangeV) -> DiffLineV {
    DiffLineV {
        text: spec_trim_end(c.text),
        kind: c.kind,
        old_index: c.old_index,
        new_index: c.new_index,
    }
}

/// One maximal contiguous run of equally-classified changed lines:
/// the half-open index range it spans and its classification.
#[derive(Debug, Clone, Copy, PartialEq, Eq, Structural)]
pub struct DiffRegion {
    pub start: usize,
    pub end: usize,
    pub kind: DiffKind,
}

/// Mathematical form of a [`DiffRegion`].
#[verifier::ext_equal]
pub struct RegionV {
    pub start: int,
    pub end: int,
    pub kind: DiffKind,
}

/// The regions of `rs`, as mathematical values.
pub open spec fn region_views(rs: Seq<DiffRegion>) -> Seq<RegionV> {
    rs.map(|i: int, r: DiffRegion| RegionV { start: r.start as int, end: r.end as int, kind: r.kind })
}

/// The classification of each line.
pub open spec fn spec_line_kinds(lines: Seq<DiffLine>) -> Seq<DiffKind> {
    lines.map(|i: int, l: DiffLine| l@.kind)
}

/// Length of the leading run of classification `k`.
pub open spec fn spec_run_len(kinds: Seq<DiffKind>, k: DiffKind) -> nat
    decreases kinds.len(),
{
    if kinds.len() == 0 || kinds[0] != k {
        0
    } else {
        1 + spec_run_len(kinds.drop_first(), k)
    }
}

pub proof fn lemma_run_len(kinds: Seq<DiffKind>, k: DiffKind)
    ensures
        spec_run_len(kinds, k) <= kinds.len(),
        forall|j: int| 0 <= j < spec_run_len(kinds, k) ==> kinds[j] == k,
        spec_run_len(kinds, k) < kinds.len() ==> kinds[spec_run_len(kinds, k) as int] != k,
    decreases kinds.len(),
{
    if kinds.len() == 0 || kinds[0] != k {
    } else {
        lemma_run_len(kinds.drop_first(), k);
        assert forall|j: int| 0 <= j < spec_run_len(kinds, k) implies kinds[j] == k by {
            if j > 0 {
                assert(kinds.drop_first()[j - 1] == kinds[j]);
            }
        }
        if spec_run_len(kinds, k) < kinds.len() {
            assert(kinds.drop_first()[spec_run_len(kinds.drop_first(), k) as int]
                == kinds[spec_run_len(kinds, k) as int]);
        }
    }
}

/// The difference regions of the line classifications starting at
/// absolute position `at`: unchanged lines separate regions, and a
/// change of classification ends one region and opens the next.
pub open spec fn spec_regions_from(kinds: Seq<DiffKind>, at: int) -> Seq<RegionV>
    decreases kinds.len(),
{
    if kinds.len() == 0 {
        Seq::empty()
    } else if kinds[0] == DiffKind::Unchanged {
        spec_regions_from(kinds.drop_first(), at + 1)
    } else {
        let l = spec_run_len(kinds, kinds[0]);
        if l >= kinds.len() {
            seq![RegionV { start: at, end: at + kinds.len(), kind: kinds[0] }]
        } else {
            seq![RegionV { start: at, end: at + l, kind: kinds[0] }] + spec_regions_from(
                kinds.skip(l as int),
                at + l,
            )
        }
    }
}

/// The difference regions of a classified line sequence.
pub open spec fn spec_regions(kinds: Seq<DiffKind>) -> Seq<RegionV> {
    spec_regions_from(kinds, 0)
}

/// A sequence of unchanged lines has no regions at all.
pub proof fn lemma_all_unchanged_no_regions(kinds: Seq<DiffKind>, at: int)
    requires
        forall|j: int| 0 <= j < kinds.len() ==> kinds[j] == DiffKind::Unchanged,
    ensures
        spec_regions_from(kinds, at) == Seq::<RegionV>::empty(),
    decreases kinds.len(),
{
    if kinds.len() > 0 {
        lemma_all_unchanged_no_regions(kinds.drop_first(), at + 1);
    }
}

/// First position at or beyond `from` whose classification is
/// unchanged (`unchanged` true) or changed (`unchanged` false), if
/// any.
pub open spec fn spec_find_kind_from(kinds: Seq<DiffKind>, from: int, unchanged: bool) -> Option<
    int,
>
    decreases kinds.len() - from,
{
    if from < 0 || from >= kinds.len() {
        None
    } else if (kinds[from] == DiffKind::Unchanged) == unchanged {
        Some(from)
    } else {
        spec_find_kind_from(kinds, from + 1, unchanged)
    }
}

pub proof fn lemma_find_kind_from(kinds: Seq<DiffKind>, from: int, unchanged: bool)
    requires
        0 <= from,
    ensures
        match spec_find_kind_from(kinds, from, unchanged) {
            Some(j) => from <= j < kinds.len() && ((kinds[j] == DiffKind::Unchanged) == unchanged)
                && forall|t: int|
                from <= t < j ==> ((#[trigger] kinds[t] == DiffKind::Unchanged) != unchanged),
            None => forall|t: int|
                from <= t < kinds.len() ==> ((#[trigger] kinds[t] == DiffKind::Unchanged)
                    != unchanged),
        },
    decreases kinds.len() - from,
{
    if from >= kinds.len() {
    } else if (kinds[from] == DiffKind::Unchanged) == unchanged {
    } else {
        lemma_find_kind_from(kinds, from + 1, unchanged);
    }
}

/// Last position at or before `from` whose classification is
/// unchanged (`unchanged` true) or changed (`unchanged` false), if
/// any. A `from` beyond the end finds nothing.
pub open spec fn spec_rfind_kind_from(kinds: Seq<DiffKind>, from: int, unchanged: bool) -> Option<
    int,
>
    decreases from + 1,
{
    if from < 0 || from >= kinds.len() {
        None
    } else if (kinds[from] == DiffKind::Unchanged) == unchanged {
        Some(from)
    } else {
        spec_rfind_kind_from(kinds, from - 1, unchanged)
    }
}

pub proof fn lemma_rfind_kind_from(kinds: Seq<DiffKind>, from: int, unchanged: bool)
    requires
        from < kinds.len(),
    ensures
        match spec_rfind_kind_from(kinds, from, unchanged) {
            Some(j) => 0 <= j <= from && ((kinds[j] == DiffKind::Unchanged) == unchanged)
                && forall|t: int|
                j < t <= from ==> ((#[trigger] kinds[t] == DiffKind::Unchanged) != unchanged),
            None => forall|t: int|
                0 <= t <= from ==> ((#[trigger] kinds[t] == DiffKind::Unchanged) != unchanged),
        },
    decreases from + 1,
{
    if from < 0 {
    } else if (kinds[from] == DiffKind::Unchanged) == unchanged {
    } else {
        lemma_rfind_kind_from(kinds, from - 1, unchanged);
    }
}

/// The position of the first changed line, if any.
pub open spec fn spec_first_change(kinds: Seq<DiffKind>) -> Option<int> {
    spec_find_kind_from(kinds, 0, false)
}

/// A sequence of unchanged lines has no first change.
pub proof fn lemma_all_unchanged_no_first_change(kinds: Seq<DiffKind>)
    requires
        forall|j: int| 0 <= j < kinds.len() ==> kinds[j] == DiffKind::Unchanged,
    ensures
        spec_first_change(kinds) is None,
{
    lemma_find_kind_from(kinds, 0, false);
    match spec_find_kind_from(kinds, 0, false) {
        Some(j) => {
            assert(kinds[j] == DiffKind::Unchanged);
        },
        None => {},
    }
}

/// Where a forward jump starting at `from` lands: the scan first
/// passes through at least one unchanged line — so that a jump from
/// inside a multi-line change does not re-select it — and then
/// targets the first changed line it meets; no target means no jump.
pub open spec fn spec_next_target(kinds: Seq<DiffKind>, from: int) -> Option<int> {
    match spec_find_kind_from(kinds, from, true) {
        Some(u) => spec_find_kind_from(kinds, u, false),
        None => None,
    }
}

/// Where a backward jump starting at `from` lands, under the same
/// pass-through-unchanged rule, scanning toward the first line.
pub open spec fn spec_prev_target(kinds: Seq<DiffKind>, from: int) -> Option<int> {
    match spec_rfind_kind_from(kinds, from, true) {
        Some(u) => spec_rfind_kind_from(kinds, u, false),
        None => None,
    }
}

/// The viewport offset after asking to show line `index`: the
/// offset moves only when the line sits outside a comfortable
/// margin — a quarter of the viewport height — from the current
/// edges, and never past the top.
pub open spec fn spec_scroll_to(cur: int, viewport: int, index: int) -> int {
    let threshold = viewport / 4;
    if index < cur + threshold {
        if index + threshold > viewport {
            index + threshold - viewport
        } else {
            0
        }
    } else if index > cur + viewport - threshold {
        if index > threshold {
            index - threshold
        } else {
            0
        }
    } else {
        cur
    }
}

/// One open file comparison: its classified lines, its difference
/// regions, the navigation cursor, and the viewport state that
/// scroll-following works against. A closed engine simply holds no
/// lines. Replaced wholesale when another entry is opened.
#[derive(Debug)]
pub struct DiffEngine {
    pub lines: Vec<DiffLine>,
    pub regions: Vec<DiffRegion>,
    pub cursor: Option<usize>,
    pub scroll_top: usize,
    pub viewport_lines: usize,
}

impl DiffEngine {
    /// A closed engine: no lines, no regions, no cursor.
    pub fn new(viewport_lines: usize) -> (r: DiffEngine)
        ensures
            r.lines@.len() == 0,
            r.regions@.len() == 0,
            r.cursor is None,
            r.scroll_top == 0,
            r.viewport_lines == viewport_lines,
    {
        DiffEngine {
            lines: Vec::new(),
            regions: Vec::new(),
            cursor: None,
            scroll_top: 0,
            viewport_lines,
        }
    }

    /// Records the viewport height, in lines, that scroll-following
    /// works against.
    pub fn set_viewport(&mut self, viewport_lines: usize)
        ensures
            final(self).viewport_lines == viewport_lines,
            final(self).lines == old(self).lines,
            final(self).regions == old(self).regions,
            final(self).cursor == old(self).cursor,
            final(self).scroll_top == old(self).scroll_top,
    {
        self.viewport_lines = viewport_lines;
    }

    /// Moves the cursor to `index` and follows it with the
    /// viewport, exactly as [`spec_scroll_to`] describes.
    fn scroll_to(&mut self, index: usize)
        ensures
            final(self).cursor == Some(index),
            final(self).scroll_top as int == spec_scroll_to(
                old(self).scroll_top as int,
                old(self).viewport_lines as int,
                index as int,
            ),
            final(self).lines == old(self).lines,
            final(self).regions == old(self).regions,
            final(self).viewport_lines == old(self).viewport_lines,
    {
        self.cursor = Some(index);
        let threshold = self.viewport_lines / 4;
        let margin = self.viewport_lines - threshold;
        let below = index < threshold || index - threshold < self.scroll_top;
        if below {
            self.scroll_top = if index > margin {
                index - margin
            } else {
                0
            };
        } else if index >= margin && index - margin > self.scroll_top {
            self.scroll_top = if index > threshold {
                index - threshold
            } else {
                0
            };
        }
    }

    /// Opens a comparison: runs the line diff, classifies every
    /// line, records its line numbers on both sides, computes the
    /// difference regions, places the cursor on the first changed
    /// line (unset when the sides are identical), and scrolls the
    /// viewport to it from the top. On two identical texts there
    /// are no regions and no cursor.
    pub fn open(&mut self, left: &str, right: &str)
        ensures
            views_of(final(self).lines@) == line_diff(left@, right@).map(
                |i: int, c: RawChangeV| spec_display_line(c),
            ),
            region_views(final(self).regions@) == spec_regions(
                spec_line_kinds(final(self).lines@),
            ),
            match spec_first_change(spec_line_kinds(final(self).lines@)) {
                None => final(self).cursor is None && final(self).scroll_top == 0,
                Some(j) => final(self).cursor == Some(j as usize) && final(self).scroll_top as int
                    == spec_scroll_to(0, old(self).viewport_lines as int, j),
            },
            final(self).viewport_lines == old(self).viewport_lines,
            left@ == right@ ==> final(self).regions@.len() == 0 && final(self).cursor is None,
    {
        let changes = line_changes(left, right);
        let ghost cv = line_diff(left@, right@);
        let ghost target = cv.map(|i: int, c: RawChangeV| spec_display_line(c));
        let n = changes.len();
        let mut lines: Vec<DiffLine> = Vec::new();
        let mut i: usize = 0;
        proof {
            assert(views_of(lines@) =~= target.take(0));
        }
        while i < n
            invariant
                i <= n,
                n == changes@.len(),
                views_of(changes@) == cv,
                target == cv.map(|k: int, c: RawChangeV| spec_display_line(c)),
                lines@.len() == i,
                views_of(lines@) == target.take(i as int),
            decreases n - i,
        {
            let ghost prev = views_of(lines@);
            let c = &changes[i];
            proof {
                assert(c@ == cv[i as int]);
                assert(target[i as int] == spec_display_line(cv[i as int]));
            }
            let line = DiffLine {
                text: trim_end(c.text.as_str()),
                kind: c.kind,
                old_index: c.old_index,
                new_index: c.new_index,
            };
            proof {
                assert(line@ == spec_display_line(cv[i as int]));
            }
            lines.push(line);
            proof {
                assert(views_of(lines@) =~= prev.push(target[i as int]));
                assert(prev.push(target[i as int]) =~= target.take(i + 1));
            }
            i += 1;
        }
        proof {
            assert(target.take(n as int) =~= target);
        }
        let ghost kinds = spec_line_kinds(lines@);
        proof {
            assert(kinds.len() == n);
            assert forall|j: int| 0 <= j < n implies kinds[j] == changes@[j]@.kind by {
                assert(views_of(lines@)[j] == target[j]);
            }
        }
        // difference regions: maximal contiguous runs of one
        // changed classification
        let mut regions: Vec<DiffRegion> = Vec::new();
        let mut b: usize = 0;
        proof {
            assert(kinds.skip(0) =~= kinds);
            assert(region_views(regions@) =~= Seq::<RegionV>::empty());
            assert(region_views(regions@) + spec_regions(kinds) =~= spec_regions(kinds));
        }
        while b < n
            invariant
                b <= n,
                n == lines@.len(),
                kinds == spec_line_kinds(lines@),
                spec_regions(kinds) == region_views(regions@) + spec_regions_from(
                    kinds.skip(b as int),
                    b as int,
                ),
            decreases n - b,
        {
            let ghost prev_regions = region_views(regions@);
            let ghost rest = kinds.skip(b as int);
            proof {
                assert(rest[0] == kinds[b as int]);
                assert(rest.drop_first() =~= kinds.skip(b as int + 1));
            }
            let k = lines[b].kind;
            proof {
                assert(k == kinds[b as int]);
            }
            if k == DiffKind::Unchanged {
                proof {
                    assert(spec_regions_from(rest, b as int) == spec_regions_from(
                        rest.drop_first(),
                        b as int + 1,
                    ));
                }
                b += 1;
            } else {
                let mut e = b + 1;
                while e < n && lines[e].kind == k
                    invariant
                        b < e <= n,
                        n == lines@.len(),
                        kinds == spec_line_kinds(lines@),
                        k == kinds[b as int],
                        forall|t: int| b <= t < e ==> kinds[t] == k,
                    decreases n - e,
                {
                    proof {
                        assert(lines@[e as int]@.kind == kinds[e as int]);
                    }
                    e += 1;
                }
                proof {
                    assert(e < n ==> kinds[e as int] != k) by {
                        if (e as int) < n {
                            assert(lines@[e as int]@.kind == kinds[e as int]);
                        }
                    }
                    lemma_run_len(rest, k);
                    assert forall|t: int| 0 <= t < e - b implies rest[t] == k by {
                        assert(rest[t] == kinds[b + t]);
                    }
                    if spec_run_len(rest, k) < e - b {
                        assert(rest[spec_run_len(rest, k) as int] == kinds[b + spec_run_len(
                            rest,
                            k,
                        )]);
                    }
                    if (e as int) < n && spec_run_len(rest, k) > e - b {
                        assert(rest[e - b] == kinds[e as int]);
                    }
                    assert(spec_run_len(rest, k) == e - b);
                    if e == n {
                        assert(spec_regions_from(rest, b as int) =~= seq![
                            RegionV { start: b as int, end: e as int, kind: k },
                        ]);
                    } else {
                        assert(spec_regions_from(rest, b as int) == seq![
                            RegionV { start: b as int, end: e as int, kind: k },
                        ] + spec_regions_from(rest.skip(e - b), e as int));
                        assert(rest.skip(e - b) =~= kinds.skip(e as int));
                    }
                }
                regions.push(DiffRegion { start: b, end: e, kind: k });
                proof {
                    assert(region_views(regions@) =~= prev_regions.push(
                        RegionV { start: b as int, end: e as int, kind: k },
                    ));
                    if e == n {
                        assert(kinds.skip(n as int) =~= Seq::<DiffKind>::empty());
                        assert(prev_regions + spec_regions_from(rest, b as int) =~= region_views(
                            regions@,
                        ) + spec_regions_from(kinds.skip(n as int), n as int));
                    } else {
                        assert(prev_regions + spec_regions_from(rest, b as int) =~= region_views(
                            regions@,
                        ) + spec_regions_from(kinds.skip(e as int), e as int));
                    }
                }
                b = e;
            }
        }
        proof {
            assert(kinds.skip(n as int) =~= Seq::<DiffKind>::empty());
            assert(region_views(regions@) + Seq::<RegionV>::empty() =~= region_views(regions@));
        }
        // first changed line
        let mut first: Option<usize> = None;
        let mut j: usize = 0;
        while j < n && matches!(lines[j].kind, DiffKind::Unchanged)
            invariant
                j <= n,
                n == lines@.len(),
                kinds == spec_line_kinds(lines@),
                forall|t: int| 0 <= t < j ==> kinds[t] == DiffKind::Unchanged,
            decreases n - j,
        {
            proof {
                assert(lines@[j as int]@.kind == kinds[j as int]);
            }
            j += 1;
        }
        if j < n {
            first = Some(j);
        }
        proof {
            lemma_find_kind_from(kinds, 0, false);
            if (j as int) < n {
                assert(lines@[j as int]@.kind == kinds[j as int]);
                assert(kinds[j as int] != DiffKind::Unchanged);
                match spec_first_change(kinds) {
                    Some(t) => {
                        assert(t == j as int);
                    },
                    None => {
                        assert(false);
                    },
                }
            } else {
                match spec_first_change(kinds) {
                    Some(t) => {
                        assert(kinds[t] == DiffKind::Unchanged);
                        assert(false);
                    },
                    None => {},
                }
            }
        }
        self.lines = lines;
        self.regions = regions;
        self.cursor = None;
        self.scroll_top = 0;
        match first {
            Some(idx) => {
                self.scroll_to(idx);
            },
            None => {},
        }
        proof {
            if left@ == right@ {
                assert forall|t: int| 0 <= t < kinds.len() implies kinds[t]
                    == DiffKind::Unchanged by {
                    assert(changes@[t]@.kind == DiffKind::Unchanged);
                }
                lemma_all_unchanged_no_regions(kinds, 0);
                lemma_all_unchanged_no_first_change(kinds);
                assert(region_views(self.regions@).len() == self.regions@.len());
            }
        }
    }

    /// Moves the cursor to the start of the next difference region
    /// strictly beyond the current one, scrolling to follow; at
    /// least one unchanged line must pass under the scan first, so
    /// the selected region is never re-selected. Without such a
    /// region, cursor and viewport stay as they are.
    pub fn next_difference(&mut self)
        ensures
            match spec_next_target(
                spec_line_kinds(old(self).lines@),
                match old(self).cursor {
                    Some(c) => c as int,
                    None => 0int,
                },
            ) {
                None => *final(self) == *old(self),
                Some(t) => final(self).cursor == Some(t as usize) && final(self).scroll_top as int
                    == spec_scroll_to(
                    old(self).scroll_top as int,
                    old(self).viewport_lines as int,
                    t,
                ) && final(self).lines == old(self).lines && final(self).regions == old(
                    self,
                ).regions && final(self).viewport_lines == old(self).viewport_lines,
            },
    {
        let ghost kinds = spec_line_kinds(self.lines@);
        let start = match self.cursor {
            Some(c) => c,
            None => 0,
        };
        let n = self.lines.len();
        if start >= n {
            return ;
        }
        let mut u = start;
        while u < n && !matches!(self.lines[u].kind, DiffKind::Unchanged)
            invariant
                start <= u <= n,
                n == self.lines@.len(),
                kinds == spec_line_kinds(self.lines@),
                forall|t: int| start <= t < u ==> kinds[t] != DiffKind::Unchanged,
            decreases n - u,
        {
            proof {
                assert(self.lines@[u as int]@.kind == kinds[u as int]);
            }
            u += 1;
        }
        proof {
            lemma_find_kind_from(kinds, start as int, true);
        }
        if u >= n {
            proof {
                match spec_find_kind_from(kinds, start as int, true) {
                    Some(w) => {
                        assert(kinds[w] == DiffKind::Unchanged);
                        assert(false);
                    },
                    None => {},
                }
            }
            return ;
        }
        proof {
            assert(self.lines@[u as int]@.kind == kinds[u as int]);
            assert(kinds[u as int] == DiffKind::Unchanged);
            match spec_find_kind_from(kinds, start as int, true) {
                Some(w) => {
                    assert(w == u as int);
                },
                None => {
                    assert(false);
                },
            }
        }
        let mut t = u;
        while t < n && matches!(self.lines[t].kind, DiffKind::Unchanged)
            invariant
                u <= t <= n,
                n == self.lines@.len(),
                kinds == spec_line_kinds(self.lines@),
                forall|w: int| u <= w < t ==> kinds[w] == DiffKind::Unchanged,
            decreases n - t,
        {
            proof {
                assert(self.lines@[t as int]@.kind == kinds[t as int]);
            }
            t += 1;
        }
        proof {
            lemma_find_kind_from(kinds, u as int, false);
        }
        if t >= n {
            proof {
                match spec_find_kind_from(kinds, u as int, false) {
                    Some(w) => {
                        assert(kinds[w] != DiffKind::Unchanged);
                        assert(false);
                    },
                    None => {},
                }
            }
            return ;
        }
        proof {
            assert(self.lines@[t as int]@.kind == kinds[t as int]);
            assert(kinds[t as int] != DiffKind::Unchanged);
            match spec_find_kind_from(kinds, u as int, false) {
                Some(w) => {
                    assert(w == t as int);
                },
                None => {
                    assert(false);
                },
            }
        }
        self.scroll_to(t);
    }

    /// Moves the cursor to the previous difference region strictly
    /// before the current one, under the same
    /// pass-through-unchanged rule, scrolling to follow. Without
    /// such a region, cursor and viewport stay as they are.
    pub fn previous_difference(&mut self)
        ensures
            match spec_prev_target(
                spec_line_kinds(old(self).lines@),
                match old(self).cursor {
                    Some(c) => c as int,
                    None => 0int,
                },
            ) {
                None => *final(self) == *old(self),
                Some(t) => final(self).cursor == Some(t as usize) && final(self).scroll_top as int
                    == spec_scroll_to(
                    old(self).scroll_top as int,
                    old(self).viewport_lines as int,
                    t,
                ) && final(self).lines == old(self).lines && final(self).regions == old(
                    self,
                ).regions && final(self).viewport_lines == old(self).viewport_lines,
            },
    {
        let ghost kinds = spec_line_kinds(self.lines@);
        let ghost start0 = match self.cursor {
            Some(c) => c as int,
            None => 0int,
        };
        let start = match self.cursor {
            Some(c) => c,
            None => 0,
        };
        let n = self.lines.len();
        if start >= n {
            return ;
        }
        let mut u = start;
        loop
            invariant
                *self == *old(self),
                0 <= u <= start < n,
                n == self.lines@.len(),
                kinds == spec_line_kinds(self.lines@),
                start as int == start0,
                start0 == (match old(self).cursor {
                    Some(c) => c as int,
                    None => 0int,
                }),
                forall|t: int| u < t <= start ==> kinds[t] != DiffKind::Unchanged,
            ensures
                *self == *old(self),
                0 <= u <= start < n,
                n == self.lines@.len(),
                kinds == spec_line_kinds(self.lines@),
                start as int == start0,
                kinds[u as int] == DiffKind::Unchanged,
                forall|t: int| u < t <= start ==> kinds[t] != DiffKind::Unchanged,
            decreases u,
        {
            proof {
                assert(self.lines@[u as int]@.kind == kinds[u as int]);
            }
            if matches!(self.lines[u].kind, DiffKind::Unchanged) {
                break ;
            }
            if u == 0 {
                proof {
                    lemma_rfind_kind_from(kinds, start as int, true);
                    match spec_rfind_kind_from(kinds, start as int, true) {
                        Some(w) => {
                            assert(kinds[w] == DiffKind::Unchanged);
                            assert(false);
                        },
                        None => {},
                    }
                }
                return ;
            }
            u -= 1;
        }
        proof {
            lemma_rfind_kind_from(kinds, start as int, true);
            match spec_rfind_kind_from(kinds, start as int, true) {
                Some(w) => {
                    assert(w == u as int);
                },
                None => {
                    assert(false);
                },
            }
        }
        let mut t = u;
        loop
            invariant
                *self == *old(self),
                0 <= t <= u < n,
                n == self.lines@.len(),
                kinds == spec_line_kinds(self.lines@),
                start as int == start0,
                start0 == (match old(self).cursor {
                    Some(c) => c as int,
                    None => 0int,
                }),
                spec_rfind_kind_from(kinds, start as int, true) == Some(u as int),
                forall|w: int| t < w <= u ==> kinds[w] == DiffKind::Unchanged,
            ensures
                *self == *old(self),
                0 <= t <= u < n,
                n == self.lines@.len(),
                kinds == spec_line_kinds(self.lines@),
                start as int == start0,
                spec_rfind_kind_from(kinds, start as int, true) == Some(u as int),
                kinds[t as int] != DiffKind::Unchanged,
                forall|w: int| t < w <= u ==> kinds[w] == DiffKind::Unchanged,
            decreases t,
        {
            proof {
                assert(self.lines@[t as int]@.kind == kinds[t as int]);
            }
            if !matches!(self.lines[t].kind, DiffKind::Unchanged) {
                break ;
            }
            if t == 0 {
                proof {
                    lemma_rfind_kind_from(kinds, u as int, false);
                    match spec_rfind_kind_from(kinds, u as int, false) {
                        Some(w) => {
                            assert(kinds[w] != DiffKind::Unchanged);
                            assert(false);
                        },
                        None => {},
                    }
                }
                return ;
            }
            t -= 1;
        }
        proof {
            lemma_rfind_kind_from(kinds, u as int, false);
            match spec_rfind_kind_from(kinds, u as int, false) {
                Some(w) => {
                    assert(w == t as int);
                },
                None => {
                    assert(false);
                },
            }
        }
        self.scroll_to(t);
    }
}

} // verus!
//! What the terminal screens show: labels, texts, the busy bar, and the
//! placement of lists and dialogs. Drawing them is left to the caller.
use vstd::prelude::*;
use vstd::string::*;

use crate::domain::{format_bytes, format_bytes_spec, kind_label, DeleteResult, DeleteStrategy};
use crate::fspath::{file_name_spec, FsPath};
use crate::results::{is_listing, FilterMode, PendingDelete, ResultsState, SortMode};
use crate::state::HomeMode;
use crate::text::{decimal, owned, push_char, push_decimal, push_str};

verus! {

/// The short name of a filter.
pub open spec fn filter_label_spec(mode: FilterMode) -> Seq<char> {
    match mode {
        FilterMode::All => "all"@,
        FilterMode::CacheAndBuild => "cache/build"@,
        FilterMode::Dependencies => "deps"@,
    }
}

/// The short name of a filter, as the results screen shows it.
pub fn filter_label(mode: FilterMode) -> (r: &'static str)
    ensures
        r@ == filter_label_spec(mode),
{
    match mode {
        FilterMode::All => "all",
        FilterMode::CacheAndBuild => "cache/build",
        FilterMode::Dependencies => "deps",
    }
}

/// The short name of a sort order.
pub open spec fn sort_label_spec(mode: SortMode) -> Seq<char> {
    match mode {
        SortMode::LargestFirst => "largest"@,
        SortMode::PathAscending => "path"@,
    }
}

/// The short name of a sort order, as the results screen shows it.
pub fn sort_label(mode: SortMode) -> (r: &'static str)
    ensures
        r@ == sort_label_spec(mode),
{
    match mode {
        SortMode::LargestFirst => "largest",
        SortMode::PathAscending => "path",
    }
}

/// The inner width of the busy bar: at least twelve.
pub open spec fn bar_width(width: nat) -> nat {
    if width < 12 {
        12
    } else {
        width
    }
}

/// The length of the moving segment: a quarter of the width, at least four,
/// and leaving at least two free cells.
pub open spec fn bar_segment(w: nat) -> nat {
    let quarter = w / 4;
    let at_least = if quarter < 4 {
        4
    } else {
        quarter
    };
    if at_least < w - 2 {
        at_least
    } else {
        (w - 2) as nat
    }
}

/// Where the segment starts at `tick`: it moves right one cell per tick,
/// then back, and so on.
pub open spec fn bar_offset(tick: nat, w: nat) -> nat {
    let travel = (w - bar_segment(w)) as nat;
    let cycle = if travel * 2 < 1 {
        1
    } else {
        travel * 2
    };
    let step = tick % cycle;
    if step <= travel {
        step
    } else {
        (cycle - step) as nat
    }
}

/// The cell `i` of the bar: `=` inside the segment, blank outside.
pub open spec fn bar_cell(tick: nat, w: nat, i: int) -> char {
    if bar_offset(tick, w) <= i < bar_offset(tick, w) + bar_segment(w) {
        '='
    } else {
        ' '
    }
}

/// The busy bar at `tick`: the cells between brackets.
pub open spec fn bar_spec(tick: nat, width: nat) -> Seq<char> {
    let w = bar_width(width);
    seq!['['] + Seq::new(w, |i: int| bar_cell(tick, w, i)) + seq![']']
}

/// A bar that shows work going on: a segment of `=` that moves to and fro
/// inside brackets, one cell per tick.
pub fn indeterminate_bar(tick: u64, width: usize) -> (r: String)
    requires
        width < usize::MAX / 2,
    ensures
        r@ == bar_spec(tick as nat, width as nat),
{
    let w: usize = if width < 12 {
        12
    } else {
        width
    };
    let quarter = w / 4;
    let at_least: usize = if quarter < 4 {
        4
    } else {
        quarter
    };
    let segment: usize = if at_least < w - 2 {
        at_least
    } else {
        w - 2
    };
    let travel: usize = w - segment;
    let cycle: usize = if travel * 2 < 1 {
        1
    } else {
        travel * 2
    };
    let step: usize = (tick % (cycle as u64)) as usize;
    let offset: usize = if step <= travel {
        step
    } else {
        cycle - step
    };
    assert(offset == bar_offset(tick as nat, w as nat));
    let mut out = String::new();
    push_char(&mut out, '[');
    let mut i: usize = 0;
    while i < w
        invariant
            i <= w,
            w == bar_width(width as nat),
            segment == bar_segment(w as nat),
            offset == bar_offset(tick as nat, w as nat),
            out@ == seq!['['] + Seq::new(i as nat, |j: int| bar_cell(tick as nat, w as nat, j)),
        decreases w - i,
    {
        let c = if offset <= i && i < offset + segment {
            '='
        } else {
            ' '
        };
        push_char(&mut out, c);
        assert(out@ =~= seq!['['] + Seq::new((i + 1) as nat, |j: int| bar_cell(tick as nat, w as nat, j)));
        i = i + 1;
    }
    push_char(&mut out, ']');
    assert(out@ =~= bar_spec(tick as nat, width as nat));
    out
}

/// The first row a list of `len` rows shows in a window of `viewport`
/// rows, from the previous one (`offset`), so that the `selected` row is
/// in view: zero for an empty list or window; otherwise the previous first
/// row kept within the list, moved just enough to show `selected`.
pub open spec fn synced_offset(offset: nat, selected: nat, len: nat, viewport: nat) -> nat {
    if len == 0 || viewport == 0 {
        0
    } else {
        let max_offset = if len > viewport {
            (len - viewport) as nat
        } else {
            0
        };
        let kept = if offset < max_offset {
            offset
        } else {
            max_offset
        };
        if selected < kept {
            selected
        } else if selected >= kept + viewport {
            (selected + 1 - viewport) as nat
        } else {
            kept
        }
    }
}

/// Moves the first shown row of a list so that the selected row is in view.
pub fn sync_list_offset(offset: &mut usize, selected: usize, len: usize, viewport: usize)
    ensures
        *final(offset) == synced_offset(*old(offset) as nat, selected as nat, len as nat, viewport as nat),
{
    if len == 0 || viewport == 0 {
        *offset = 0;
        return;
    }
    let max_offset = len.saturating_sub(viewport);
    if *offset > max_offset {
        *offset = max_offset;
    }
    if selected < *offset {
        *offset = selected;
    } else if selected >= offset.saturating_add(viewport) {
        *offset = selected - viewport + 1;
    }
}

/// A rectangle of terminal cells.
#[derive(Clone, Copy, Debug, PartialEq, Eq, Structural)]
pub struct Rect {
    pub x: u16,
    pub y: u16,
    pub width: u16,
    pub height: u16,
}

/// `a - b`, or zero below it.
pub open spec fn sat_sub(a: int, b: int) -> int {
    if a > b {
        a - b
    } else {
        0
    }
}

/// `min(max(x, 1), cap)` style helpers: the smaller of two values.
pub open spec fn min_of(a: int, b: int) -> int {
    if a < b {
        a
    } else {
        b
    }
}

/// A box of the given size, shrunk to leave a margin of three cells on
/// each side and two above and below (but at least one cell), centred in
/// `area`.
pub open spec fn centered_box_spec(area: Rect, width: int, height: int) -> Rect {
    let max_w = if sat_sub(area.width as int, 6) < 1 {
        1
    } else {
        sat_sub(area.width as int, 6)
    };
    let max_h = if sat_sub(area.height as int, 4) < 1 {
        1
    } else {
        sat_sub(area.height as int, 4)
    };
    let w = min_of(width, max_w);
    let h = min_of(height, max_h);
    Rect {
        x: (area.x + sat_sub(area.width as int, w) / 2) as u16,
        y: (area.y + sat_sub(area.height as int, h) / 2) as u16,
        width: w as u16,
        height: h as u16,
    }
}

/// Where a dialog of the desired size goes in `area`.
pub fn centered_box(area: Rect, desired_width: u16, desired_height: u16) -> (r: Rect)
    requires
        area.x + area.width <= u16::MAX,
        area.y + area.height <= u16::MAX,
    ensures
        r == centered_box_spec(area, desired_width as int, desired_height as int),
{
    let max_width = if area.width.saturating_sub(6) < 1 {
        1
    } else {
        area.width.saturating_sub(6)
    };
    let max_height = if area.height.saturating_sub(4) < 1 {
        1
    } else {
        area.height.saturating_sub(4)
    };
    let width = if desired_width < max_width {
        desired_width
    } else {
        max_width
    };
    let height = if desired_height < max_height {
        desired_height
    } else {
        max_height
    };
    Rect {
        x: area.x + area.width.saturating_sub(width) / 2,
        y: area.y + area.height.saturating_sub(height) / 2,
        width,
        height,
    }
}

/// The frame of the whole interface in `area`: 120 by 38 cells on a large
/// terminal, else nearly all of it, centred.
pub open spec fn app_rect_spec(area: Rect) -> Rect {
    let w = if area.width > 124 {
        120
    } else if sat_sub(area.width as int, 2) < 1 {
        1
    } else {
        sat_sub(area.width as int, 2)
    };
    let h = if area.height > 42 {
        38
    } else if sat_sub(area.height as int, 1) < 1 {
        1
    } else {
        sat_sub(area.height as int, 1)
    };
    Rect {
        x: (area.x + sat_sub(area.width as int, w) / 2) as u16,
        y: (area.y + sat_sub(area.height as int, h) / 2) as u16,
        width: w as u16,
        height: h as u16,
    }
}

/// Where the interface's frame goes in `area`.
pub fn centered_app_rect(area: Rect) -> (r: Rect)
    requires
        area.x + area.width <= u16::MAX,
        area.y + area.height <= u16::MAX,
    ensures
        r == app_rect_spec(area),
{
    let width: u16 = if area.width > 124 {
        120
    } else if area.width.saturating_sub(2) < 1 {
        1
    } else {
        area.width.saturating_sub(2)
    };
    let height: u16 = if area.height > 42 {
        38
    } else if area.height.saturating_sub(1) < 1 {
        1
    } else {
        area.height.saturating_sub(1)
    };
    Rect {
        x: area.x + area.width.saturating_sub(width) / 2,
        y: area.y + area.height.saturating_sub(height) / 2,
        width,
        height,
    }
}

/// The typed path with its cursor: while typing, a block that blinks every
/// four ticks; otherwise the path alone.
pub open spec fn input_text_spec(input: Seq<char>, mode: HomeMode, tick: nat) -> Seq<char> {
    if mode == HomeMode::PathEntry {
        if tick % 8 < 4 {
            input.push('\u{2588}')
        } else {
            input.push(' ')
        }
    } else {
        input
    }
}

/// The typed path as the home screen shows it.
pub fn input_text(input: &str, mode: HomeMode, tick: u64) -> (r: String)
    ensures
        r@ == input_text_spec(input@, mode, tick as nat),
{
    let mut out = owned(input);
    if mode == HomeMode::PathEntry {
        if tick % 8 < 4 {
            push_char(&mut out, '\u{2588}');
        } else {
            push_char(&mut out, ' ');
        }
    }
    out
}

/// The size of an item as a table shows it: the formatted size, or `n/a`
/// when it was not measured.
pub fn size_text(bytes: Option<u64>) -> (r: String)
    ensures
        r@ == match bytes {
            Some(b) => format_bytes_spec(b as nat),
            None => "n/a"@,
        },
{
    match bytes {
        Some(b) => format_bytes(b),
        None => {
            proof {
                reveal_strlit("n/a");
            }
            owned("n/a")
        },
    }
}

/// The question of the delete dialog.
pub open spec fn confirm_text_spec(strategy: DeleteStrategy, count: nat, bytes: nat) -> Seq<char> {
    (if strategy == DeleteStrategy::Trash {
        "Move"@
    } else {
        "Permanently delete"@
    }) + " "@ + decimal(count) + " item(s) for "@ + format_bytes_spec(bytes)
}

/// The question that asks to confirm a pending deletion.
pub fn confirm_text(pending: &PendingDelete) -> (r: String)
    ensures
        r@ == confirm_text_spec(
            pending.strategy,
            pending.item_indices@.len(),
            pending.total_bytes as nat,
        ),
{
    let mut out = String::new();
    if pending.strategy == DeleteStrategy::Trash {
        push_str(&mut out, "Move");
    } else {
        push_str(&mut out, "Permanently delete");
    }
    push_str(&mut out, " ");
    push_decimal(&mut out, pending.item_indices.len() as u64);
    push_str(&mut out, " item(s) for ");
    let size = format_bytes(pending.total_bytes);
    push_str(&mut out, size.as_str());
    out
}

/// The message while a deletion runs.
pub fn delete_progress_text(strategy: DeleteStrategy, item_count: usize) -> (r: String)
    ensures
        r@ == (if strategy == DeleteStrategy::Trash {
            "Moving to trash"@
        } else {
            "Deleting"@
        }) + " "@ + decimal(item_count as nat) + " item(s)..."@,
{
    let mut out = String::new();
    if strategy == DeleteStrategy::Trash {
        push_str(&mut out, "Moving to trash");
    } else {
        push_str(&mut out, "Deleting");
    }
    push_str(&mut out, " ");
    push_decimal(&mut out, item_count as u64);
    push_str(&mut out, " item(s)...");
    out
}

/// One failure line: the path and the reason.
pub open spec fn failure_line(path: Seq<char>, message: Seq<char>) -> Seq<char> {
    path + ": "@ + message
}

/// The failures of a cleanup, up to the first four, one per line.
pub open spec fn failures_text_spec(lines: Seq<Seq<char>>) -> Seq<char>
    decreases lines.len(),
{
    if lines.len() == 0 {
        Seq::empty()
    } else if lines.len() == 1 {
        lines[0]
    } else {
        failures_text_spec(lines.drop_last()) + "\n"@ + lines.last()
    }
}

/// The failure lines of a result.
pub open spec fn failure_lines(result: DeleteResult) -> Seq<Seq<char>> {
    result.failed@.map_values(|f: crate::domain::DeleteFailure| failure_line(f.path.shown(), f.message@))
}

/// What the cleanup summary lists under its failures: `No failures`, or the
/// first four failures, one per line.
pub fn failures_text(result: &DeleteResult) -> (r: String)
    ensures
        result.failed@.len() == 0 ==> r@ == "No failures"@,
        result.failed@.len() > 0 ==> r@ == failures_text_spec(
            failure_lines(*result).take(
                if result.failed@.len() < 4 {
                    result.failed@.len() as int
                } else {
                    4
                },
            ),
        ),
{
    let n = result.failed.len();
    if n == 0 {
        proof {
            reveal_strlit("No failures");
        }
        return owned("No failures");
    }
    let shown: usize = if n < 4 {
        n
    } else {
        4
    };
    let ghost lines = failure_lines(*result);
    let mut out = String::new();
    let mut i: usize = 0;
    while i < shown
        invariant
            shown <= n,
            n == result.failed@.len(),
            i <= shown,
            lines == failure_lines(*result),
            out@ == failures_text_spec(lines.take(i as int)),
        decreases shown - i,
    {
        if i > 0 {
            push_str(&mut out, "\n");
        }
        let failure = &result.failed[i];
        let shown_path = failure.path.display();
        push_str(&mut out, shown_path.as_str());
        push_str(&mut out, ": ");
        push_str(&mut out, failure.message.as_str());
        proof {
            assert(lines.take(i + 1).drop_last() =~= lines.take(i as int));
            assert(lines[i as int] == failure_line(failure.path.shown(), failure.message@));
            if i == 0 {
                assert(out@ =~= failures_text_spec(lines.take(1)));
            } else {
                assert(out@ =~= failures_text_spec(lines.take(i + 1)));
            }
        }
        i = i + 1;
    }
    out
}

/// The recent paths the home screen lists: the first eight, as text.
pub fn recent_lines(paths: &Vec<FsPath>) -> (r: Vec<String>)
    ensures
        r@.len() == if paths@.len() < 8 {
            paths@.len()
        } else {
            8
        },
        forall|i: int| 0 <= i < r@.len() ==> #[trigger] r@[i]@ == paths@[i].shown(),
{
    let n = paths.len();
    let shown: usize = if n < 8 {
        n
    } else {
        8
    };
    let mut out: Vec<String> = Vec::new();
    let mut i: usize = 0;
    while i < shown
        invariant
            shown <= n,
            n == paths@.len(),
            i <= shown,
            out@.len() == i,
            forall|j: int| 0 <= j < i ==> #[trigger] out@[j]@ == paths@[j].shown(),
        decreases shown - i,
    {
        out.push(paths[i].display());
        i = i + 1;
    }
    out
}

/// The warnings the scanning screen lists in `rows` rows: the newest first.
pub fn latest_warnings(warnings: &Vec<String>, rows: usize) -> (r: Vec<String>)
    ensures
        r@.len() == if warnings@.len() < rows {
            warnings@.len() as int
        } else {
            rows as int
        },
        forall|i: int| 0 <= i < r@.len() ==> #[trigger] r@[i]@ == warnings@[warnings@.len() - 1 - i]@,
{
    let n = warnings.len();
    let shown: usize = if n < rows {
        n
    } else {
        rows
    };
    let mut out: Vec<String> = Vec::new();
    let mut i: usize = 0;
    while i < shown
        invariant
            shown <= n,
            n == warnings@.len(),
            i <= shown,
            out@.len() == i,
            forall|j: int| 0 <= j < i ==> #[trigger] out@[j]@ == warnings@[n - 1 - j]@,
        decreases shown - i,
    {
        out.push(warnings[n - 1 - i].clone());
        i = i + 1;
    }
    out
}


/// A row of the candidates table.
#[derive(Clone, Debug)]
pub struct CandidateRow {
    /// Whether the item is marked.
    pub checked: bool,
    /// The last component of the item's path, or `?`.
    pub name: String,
    /// The item's kind.
    pub kind: &'static str,
    /// The item's ecosystem.
    pub ecosystem: String,
    /// The item's size, or `n/a`.
    pub size: String,
}

/// The rows of the candidates table: one per listed item, in listed order.
pub fn candidate_rows(results: &ResultsState) -> (r: Vec<CandidateRow>)
    ensures
        r@.len() == results.listed().len(),
        forall|i: int|
            0 <= i < r@.len() ==> {
                let index = results.listed()[i];
                let item = results.report.items@[index as int];
                &&& index < results.report.items@.len()
                &&& (#[trigger] r@[i]).checked == results.checked@.contains(index)
                &&& r@[i].name@ == match file_name_spec(item.path@) {
                    Some(n) => n,
                    None => "?"@,
                }
                &&& r@[i].kind@ == kind_label(item.kind)
                &&& r@[i].ecosystem@ == item.ecosystem@
                &&& r@[i].size@ == match item.bytes {
                    Some(b) => format_bytes_spec(b as nat),
                    None => "n/a"@,
                }
            },
{
    let visible = results.visible_indices();
    let n = visible.len();
    let mut rows: Vec<CandidateRow> = Vec::new();
    let mut i: usize = 0;
    assert forall|j: int| 0 <= j < n implies #[trigger] results.listed()[j]
        < results.report.items@.len() by {
        assert(visible@.contains(visible@[j]));
    }
    while i < n
        invariant
            n == visible@.len(),
            visible@ == results.listed(),
            is_listing(results.report.items@, results.filter, results.sort, visible@),
            forall|j: int| 0 <= j < n ==> #[trigger] results.listed()[j] < results.report.items@.len(),
            i <= n,
            rows@.len() == i,
            forall|j: int|
                0 <= j < i ==> {
                    let index = results.listed()[j];
                    let item = results.report.items@[index as int];
                    &&& index < results.report.items@.len()
                    &&& (#[trigger] rows@[j]).checked == results.checked@.contains(index)
                    &&& rows@[j].name@ == match file_name_spec(item.path@) {
                        Some(n) => n,
                        None => "?"@,
                    }
                    &&& rows@[j].kind@ == kind_label(item.kind)
                    &&& rows@[j].ecosystem@ == item.ecosystem@
                    &&& rows@[j].size@ == match item.bytes {
                        Some(b) => format_bytes_spec(b as nat),
                        None => "n/a"@,
                    }
                },
        decreases n - i,
    {
        let index = visible[i];
        assert(visible@.contains(index));
        let item = &results.report.items[index];
        let name = match item.path.file_name() {
            Some(n) => n,
            None => {
                proof {
                    reveal_strlit("?");
                }
                owned("?")
            },
        };
        let row = CandidateRow {
            checked: results.checked.contains(index),
            name,
            kind: item.kind.label(),
            ecosystem: item.ecosystem.clone(),
            size: size_text(item.bytes),
        };
        let ghost before = rows@;
        rows.push(row);
        proof {
            assert forall|j: int| 0 <= j < i + 1 implies {
                let index = results.listed()[j];
                let item = results.report.items@[index as int];
                &&& index < results.report.items@.len()
                &&& (#[trigger] rows@[j]).checked == results.checked@.contains(index)
                &&& rows@[j].name@ == match file_name_spec(item.path@) {
                    Some(n) => n,
                    None => "?"@,
                }
                &&& rows@[j].kind@ == kind_label(item.kind)
                &&& rows@[j].ecosystem@ == item.ecosystem@
                &&& rows@[j].size@ == match item.bytes {
                    Some(b) => format_bytes_spec(b as nat),
                    None => "n/a"@,
                }
            } by {
                if j < i {
                    assert(rows@[j] == before[j]);
                } else {
                    assert(results.listed()[j] == index);
                }
            }
        }
        i = i + 1;
    }
    rows
}

/// What the scanning screen says of the scan's root: its path, or that the
/// scan is being prepared.
pub fn scan_heading(root: &Option<FsPath>) -> (r: String)
    ensures
        r@ == match root {
            Some(p) => p.shown(),
            None => "Preparing scan target"@,
        },
{
    match root {
        Some(p) => p.display(),
        None => {
            proof {
                reveal_strlit("Preparing scan target");
            }
            owned("Preparing scan target")
        },
    }
}

/// What the scanning screen says of the directory being examined: its
/// path, or that none has been entered yet.
pub fn current_path_text(current: &Option<FsPath>) -> (r: String)
    ensures
        r@ == match current {
            Some(p) => p.shown(),
            None => "waiting for first directory..."@,
        },
{
    match current {
        Some(p) => p.display(),
        None => {
            proof {
                reveal_strlit("waiting for first directory...");
            }
            owned("waiting for first directory...")
        },
    }
}

/// The state the scanning screen shows: after more than ten ticks on that
/// screen the scan is taken to be finishing.
pub fn scan_status_text(stalled_ticks: u64) -> (r: &'static str)
    ensures
        r@ == (if stalled_ticks > 10 {
            "finalizing results..."@
        } else {
            "actively scanning"@
        }),
{
    if stalled_ticks > 10 {
        "finalizing results..."
    } else {
        "actively scanning"
    }
}

/// The line a command-line cleanup ends with: how many items were deleted,
/// how many failed, and the bytes reclaimed.
pub fn cleanup_line(result: &DeleteResult) -> (r: String)
    ensures
        r@ == "Deleted "@ + decimal(result.deleted@.len()) + " items, failed on "@ + decimal(
            result.failed@.len(),
        ) + ", reclaimed "@ + format_bytes_spec(result.reclaimed_bytes as nat),
{
    let mut out = owned("Deleted ");
    push_decimal(&mut out, result.deleted.len() as u64);
    push_str(&mut out, " items, failed on ");
    push_decimal(&mut out, result.failed.len() as u64);
    push_str(&mut out, ", reclaimed ");
    let bytes = format_bytes(result.reclaimed_bytes);
    push_str(&mut out, bytes.as_str());
    out
}

/// A listed line of the command line's report: `- `, then the path and the
/// message when there is a path, else the message alone.
pub fn report_line(path: &Option<FsPath>, message: &str) -> (r: String)
    ensures
        r@ == "- "@ + match path {
            Some(p) => p.shown() + ": "@ + message@,
            None => message@,
        },
{
    let mut out = owned("- ");
    match path {
        Some(p) => {
            let shown = p.display();
            push_str(&mut out, shown.as_str());
            push_str(&mut out, ": ");
        },
        None => {},
    }
    push_str(&mut out, message);
    out
}

} // verus!

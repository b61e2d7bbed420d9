use vstd::prelude::*;
use vstd::string::StrSliceExecFns;

use crate::text::{
    chars_of, is_blank, is_indented, lemma_strip_indent_then_trim, line_spans, lines_of, span,
    starts_indented, strip_indent, trim, trim_span,
};

verus! {

/// Number of colours in the palette that slides cycle through.
pub const PALETTE_SIZE: usize = 8;

/// One line of text on a slide.
pub struct SlideItem {
    pub text: String,
    pub is_sub_item: bool,
}

/// A display unit: its lines, and the index of its colour in the palette.
pub struct Slide {
    pub items: Vec<SlideItem>,
    pub color: usize,
}

pub struct SlideItemView {
    pub text: Seq<char>,
    pub is_sub_item: bool,
}

pub struct SlideView {
    pub items: Seq<SlideItemView>,
    pub color: nat,
}

impl View for SlideItem {
    type V = SlideItemView;

    open spec fn view(&self) -> SlideItemView {
        SlideItemView { text: self.text@, is_sub_item: self.is_sub_item }
    }
}

impl View for Slide {
    type V = SlideView;

    open spec fn view(&self) -> SlideView {
        SlideView { items: self.items@.map_values(|i: SlideItem| i@), color: self.color as nat }
    }
}

pub open spec fn slides_view(v: Seq<Slide>) -> Seq<SlideView> {
    v.map_values(|s: Slide| s@)
}

pub open spec fn item(text: Seq<char>, is_sub_item: bool) -> SlideItemView {
    SlideItemView { text, is_sub_item }
}

/// The palette colour that the `n`-th coloured slide takes.
pub open spec fn palette_slot(n: nat) -> nat {
    n % (PALETTE_SIZE as nat)
}

/// The first line at or after `k` that does not continue a run of
/// non-blank indented lines.
pub open spec fn child_run_end(lines: Seq<Seq<char>>, k: int) -> int
    decreases lines.len() - k,
{
    if 0 <= k < lines.len() && is_indented(lines[k]) && !is_blank(lines[k]) {
        child_run_end(lines, k + 1)
    } else {
        k
    }
}

/// The first line at or after `k` that does not continue a run of
/// non-blank lines without indentation.
pub open spec fn bare_run_end(lines: Seq<Seq<char>>, k: int) -> int
    decreases lines.len() - k,
{
    if 0 <= k < lines.len() && !is_indented(lines[k]) && !is_blank(lines[k]) {
        bare_run_end(lines, k + 1)
    } else {
        k
    }
}

/// The one slide made of the bare lines `i..e`, always in the first colour.
pub open spec fn bare_slide(lines: Seq<Seq<char>>, i: int, e: int) -> SlideView {
    SlideView { items: Seq::new((e - i) as nat, |k: int| item(trim(lines[i + k]), false)), color: 0 }
}

/// The build-up slides of the heading at line `i` with its children
/// `i + 1..e`: the heading alone, then the heading over each child in turn,
/// each in the next colour from `ci` on.
pub open spec fn heading_slides(lines: Seq<Seq<char>>, i: int, e: int, ci: nat) -> Seq<SlideView> {
    Seq::new(
        (e - i) as nat,
        |k: int|
            if k == 0 {
                SlideView { items: seq![item(trim(lines[i]), false)], color: palette_slot(ci) }
            } else {
                SlideView {
                    items: seq![item(trim(lines[i]), false), item(trim(strip_indent(lines[i + k])), true)],
                    color: palette_slot((ci + k) as nat),
                }
            },
    )
}

/// The slide of an indented line with no heading before it.
pub open spec fn orphan_slide(line: Seq<char>, ci: nat) -> SlideView {
    SlideView { items: seq![item(trim(strip_indent(line)), false)], color: palette_slot(ci) }
}

/// The slides that the scan produces from line `i` on, with `ci` colours used
/// so far, and the number of colours used at the end.
pub open spec fn segment_from(lines: Seq<Seq<char>>, i: int, ci: nat) -> (Seq<SlideView>, nat)
    decreases lines.len() - i,
    via segment_from_decreases
{
    if i < 0 || i >= lines.len() {
        (Seq::empty(), ci)
    } else if is_blank(lines[i]) {
        segment_from(lines, i + 1, ci)
    } else if is_indented(lines[i]) {
        let rest = segment_from(lines, i + 1, (ci + 1) as nat);
        (seq![orphan_slide(lines[i], ci)] + rest.0, rest.1)
    } else {
        let e = child_run_end(lines, i + 1);
        if e == i + 1 {
            let b = bare_run_end(lines, i);
            let rest = segment_from(lines, b, ci);
            (seq![bare_slide(lines, i, b)] + rest.0, rest.1)
        } else {
            let rest = segment_from(lines, e, ci + (e - i) as nat);
            (heading_slides(lines, i, e, ci) + rest.0, rest.1)
        }
    }
}

#[via_fn]
proof fn segment_from_decreases(lines: Seq<Seq<char>>, i: int, ci: nat) {
    if 0 <= i < lines.len() && !is_blank(lines[i]) && !is_indented(lines[i]) {
        lemma_child_run_end_bounds(lines, i + 1);
        lemma_bare_run_end_bounds(lines, i);
    }
}

pub proof fn lemma_child_run_end_bounds(lines: Seq<Seq<char>>, k: int)
    ensures
        k <= child_run_end(lines, k),
        0 <= k <= lines.len() ==> child_run_end(lines, k) <= lines.len(),
    decreases lines.len() - k,
{
    if 0 <= k < lines.len() && is_indented(lines[k]) && !is_blank(lines[k]) {
        lemma_child_run_end_bounds(lines, k + 1);
    }
}

pub proof fn lemma_bare_run_end_bounds(lines: Seq<Seq<char>>, k: int)
    ensures
        k <= bare_run_end(lines, k),
        0 <= k <= lines.len() ==> bare_run_end(lines, k) <= lines.len(),
        0 <= k < lines.len() && !is_indented(lines[k]) && !is_blank(lines[k]) ==> k
            < bare_run_end(lines, k),
    decreases lines.len() - k,
{
    if 0 <= k < lines.len() && !is_indented(lines[k]) && !is_blank(lines[k]) {
        lemma_bare_run_end_bounds(lines, k + 1);
    }
}

/// The slides of `text`, and how many palette colours they used, in the
/// segmentation's own order.
pub open spec fn segmentation(text: Seq<char>) -> (Seq<SlideView>, nat) {
    segment_from(lines_of(text), 0, 0)
}

/// What the scan needs to know of one line: the bounds of its text with white
/// space taken off, inside the text's characters, and whether it is indented.
#[derive(Clone, Copy)]
struct LineInfo {
    start: usize,
    end: usize,
    indented: bool,
}

spec fn line_info_ok(cs: Seq<char>, line: Seq<char>, info: LineInfo) -> bool {
    &&& info.start <= info.end <= cs.len()
    &&& span(cs, (info.start, info.end)) == trim(line)
    &&& info.indented == is_indented(line)
}

spec fn line_infos_ok(cs: Seq<char>, infos: Seq<LineInfo>) -> bool {
    &&& infos.len() == lines_of(cs).len()
    &&& forall|k: int|
        0 <= k < infos.len() ==> line_info_ok(cs, lines_of(cs)[k], #[trigger] infos[k])
}

fn line_infos(cs: &Vec<char>) -> (r: Vec<LineInfo>)
    ensures
        line_infos_ok(cs@, r@),
{
    let spans = line_spans(cs);
    let mut infos: Vec<LineInfo> = Vec::new();
    let mut k: usize = 0;
    while k < spans.len()
        invariant
            k <= spans@.len() == lines_of(cs@).len(),
            infos@.len() == k,
            forall|j: int|
                0 <= j < spans@.len() ==> spans@[j].0 <= spans@[j].1 <= cs@.len() && span(
                    cs@,
                    #[trigger] spans@[j],
                ) == lines_of(cs@)[j],
            forall|j: int|
                0 <= j < k ==> line_info_ok(cs@, lines_of(cs@)[j], #[trigger] infos@[j]),
        decreases spans@.len() - k,
    {
        let (a, b) = spans[k];
        let (x, y) = trim_span(cs, a, b);
        let indented = starts_indented(cs, a, b);
        infos.push(LineInfo { start: x, end: y, indented });
        k += 1;
    }
    infos
}

/// The characters `a..b` of `text` as a string of their own.
fn text_between(text: &str, a: usize, b: usize) -> (r: String)
    requires
        a <= b <= text@.len(),
    ensures
        r@ == text@.subrange(a as int, b as int),
{
    text.substring_char(a, b).to_owned()
}

fn single_item_slide(text: String, color: usize) -> (r: Slide)
    ensures
        r@ == (SlideView { items: seq![item(text@, false)], color: color as nat }),
{
    let mut items: Vec<SlideItem> = Vec::new();
    items.push(SlideItem { text, is_sub_item: false });
    let r = Slide { items, color };
    proof {
        assert(r@.items =~= seq![item(text@, false)]);
    }
    r
}

fn heading_child_slide(heading: String, child: String, color: usize) -> (r: Slide)
    ensures
        r@ == (SlideView {
            items: seq![item(heading@, false), item(child@, true)],
            color: color as nat,
        }),
{
    let mut items: Vec<SlideItem> = Vec::new();
    items.push(SlideItem { text: heading, is_sub_item: false });
    items.push(SlideItem { text: child, is_sub_item: true });
    let r = Slide { items, color };
    proof {
        assert(r@.items =~= seq![item(heading@, false), item(child@, true)]);
    }
    r
}

proof fn lemma_slides_view_push(v: Seq<Slide>, s: Slide)
    ensures
        slides_view(v.push(s)) == slides_view(v).push(s@),
{
    assert(slides_view(v.push(s)) =~= slides_view(v).push(s@));
}

/// Splits `text` into slides, and says how many palette colours were used.
///
/// Lines are scanned in order. Blank lines are skipped. An indented line met
/// at the scan point has no heading: it becomes a slide of its own in the
/// next colour. A line without indentation that has indented lines right
/// under it is a heading: it gives a slide of its own and one more slide for
/// each of those lines, with the heading above it, each in the next colour.
/// Otherwise the line and the bare lines right after it make one slide in the
/// first colour, which uses up no colour. Item texts are trimmed, indented
/// ones after their indent marker is taken off.
pub fn segment_counted(text: &str) -> (r: (Vec<Slide>, usize))
    ensures
        slides_view(r.0@) == segmentation(text@).0,
        r.1 as nat == segmentation(text@).1,
{
    let cs = chars_of(text);
    let infos = line_infos(&cs);
    let ghost lines = lines_of(text@);
    let n = infos.len();
    let mut out: Vec<Slide> = Vec::new();
    let mut i: usize = 0;
    let mut ci: usize = 0;
    while i < n
        invariant
            cs@ == text@,
            lines == lines_of(cs@),
            line_infos_ok(cs@, infos@),
            n == lines.len(),
            ci <= i <= n,
            segmentation(text@) == (slides_view(out@) + segment_from(
                lines,
                i as int,
                ci as nat,
            ).0, segment_from(lines, i as int, ci as nat).1),
        decreases n - i,
    {
        let info = infos[i];
        proof {
            assert(line_info_ok(cs@, lines[i as int], infos@[i as int]));
        }
        let ghost before = slides_view(out@);
        if info.start == info.end {
            i += 1;
        } else if info.indented {
            proof {
                lemma_strip_indent_then_trim(lines[i as int]);
            }
            let s = single_item_slide(text_between(text, info.start, info.end), ci % PALETTE_SIZE);
            let ghost prev = out@;
            out.push(s);
            proof {
                lemma_slides_view_push(prev, s);
                assert(seq![orphan_slide(lines[i as int], ci as nat)] + segment_from(lines, i + 1, (ci + 1) as nat).0 =~= seq![s@] + segment_from(lines, i + 1, (ci + 1) as nat).0);
                assert(before.push(s@) + segment_from(lines, i + 1, (ci + 1) as nat).0 =~= before + (seq![
                    s@,
                ] + segment_from(lines, i + 1, (ci + 1) as nat).0));
            }
            ci += 1;
            i += 1;
        } else {
            let mut e = i + 1;
            while e < n && infos[e].indented && infos[e].start < infos[e].end
                invariant
                    line_infos_ok(cs@, infos@),
                    n == lines.len(),
                    lines == lines_of(cs@),
                    i < e <= n,
                    child_run_end(lines, i + 1) == child_run_end(lines, e as int),
                decreases n - e,
            {
                proof {
                    assert(line_info_ok(cs@, lines[e as int], infos@[e as int]));
                }
                e += 1;
            }
            proof {
                if e < n {
                    assert(line_info_ok(cs@, lines[e as int], infos@[e as int]));
                }
                assert(child_run_end(lines, e as int) == e);
            }
            if e == i + 1 {
                let mut items: Vec<SlideItem> = Vec::new();
                let mut b = i;
                while b < n && !infos[b].indented && infos[b].start < infos[b].end
                    invariant
                        cs@ == text@,
                        line_infos_ok(cs@, infos@),
                        n == lines.len(),
                        lines == lines_of(cs@),
                        i <= b <= n,
                        bare_run_end(lines, i as int) == bare_run_end(lines, b as int),
                        items@.map_values(|t: SlideItem| t@) =~= Seq::new(
                            (b - i) as nat,
                            |k: int| item(trim(lines[i + k]), false),
                        ),
                    decreases n - b,
                {
                    let lb = infos[b];
                    proof {
                        assert(line_info_ok(cs@, lines[b as int], infos@[b as int]));
                    }
                    let t = SlideItem {
                        text: text_between(text, lb.start, lb.end),
                        is_sub_item: false,
                    };
                    let ghost prev = items@;
                    items.push(t);
                    proof {
                        assert(items@.map_values(|t: SlideItem| t@) =~= prev.map_values(
                            |t: SlideItem| t@,
                        ).push(t@));
                    }
                    b += 1;
                }
                proof {
                    if b < n {
                        assert(line_info_ok(cs@, lines[b as int], infos@[b as int]));
                    }
                    assert(bare_run_end(lines, b as int) == b);
                }
                let s = Slide { items, color: 0 };
                let ghost prev = out@;
                out.push(s);
                proof {
                    lemma_slides_view_push(prev, s);
                    assert(s@ == bare_slide(lines, i as int, b as int));
                    assert(before.push(s@) + segment_from(lines, b as int, ci as nat).0
                        =~= before + (seq![s@] + segment_from(lines, b as int, ci as nat).0));
                }
                i = b;
            } else {
                let heading = text_between(text, info.start, info.end);
                let ghost hs = heading_slides(lines, i as int, e as int, ci as nat);
                let first = single_item_slide(heading.clone(), ci % PALETTE_SIZE);
                let ghost prev = out@;
                out.push(first);
                proof {
                    lemma_slides_view_push(prev, first);
                    assert(slides_view(out@) =~= before + hs.take(1));
                }
                let mut c = i + 1;
                while c < e
                    invariant
                        cs@ == text@,
                        line_infos_ok(cs@, infos@),
                        n == lines.len(),
                        lines == lines_of(cs@),
                        ci <= i < c <= e <= n,
                        heading@ == trim(lines[i as int]),
                        hs == heading_slides(lines, i as int, e as int, ci as nat),
                        slides_view(out@) == before + hs.take(c - i),
                    decreases e - c,
                {
                    let lc = infos[c];
                    proof {
                        assert(line_info_ok(cs@, lines[c as int], infos@[c as int]));
                        lemma_strip_indent_then_trim(lines[c as int]);
                    }
                    let s = heading_child_slide(
                        heading.clone(),
                        text_between(text, lc.start, lc.end),
                        (ci + (c - i)) % PALETTE_SIZE,
                    );
                    let ghost prev = out@;
                    out.push(s);
                    proof {
                        lemma_slides_view_push(prev, s);
                        assert(s@ == hs[c - i]);
                        assert(hs.take(c - i).push(hs[c - i]) =~= hs.take(c - i + 1));
                    }
                    c += 1;
                }
                proof {
                    assert(hs.take(e - i) =~= hs);
                    assert(before + hs + segment_from(lines, e as int, (ci + (e - i)) as nat).0
                        =~= before + (hs + segment_from(
                        lines,
                        e as int,
                        (ci + (e - i)) as nat,
                    ).0));
                }
                ci = ci + (e - i);
                i = e;
            }
        }
    }
    (out, ci)
}

/// Splits `text` into slides; see `segment_counted`.
pub fn segment(text: &str) -> (r: Vec<Slide>)
    ensures
        slides_view(r@) == segmentation(text@).0,
{
    segment_counted(text).0
}

} // verus!

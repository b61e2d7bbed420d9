use vstd::prelude::*;

verus! {

/// Whether `c` is white space in the sense of Unicode's White_Space property,
/// the set that `char::is_whitespace` and `str::trim` go by.
pub open spec fn is_ws(c: char) -> bool {
    let u = c as u32;
    ||| 9 <= u <= 13
    ||| u == 32
    ||| u == 0x85
    ||| u == 0xA0
    ||| u == 0x1680
    ||| 0x2000 <= u <= 0x200A
    ||| u == 0x2028
    ||| u == 0x2029
    ||| u == 0x202F
    ||| u == 0x205F
    ||| u == 0x3000
}

/// `s` without its leading white space.
pub open spec fn trim_start(s: Seq<char>) -> Seq<char>
    decreases s.len(),
{
    if s.len() > 0 && is_ws(s[0]) {
        trim_start(s.drop_first())
    } else {
        s
    }
}

/// `s` without its trailing white space.
pub open spec fn trim_end(s: Seq<char>) -> Seq<char>
    decreases s.len(),
{
    if s.len() > 0 && is_ws(s.last()) {
        trim_end(s.drop_last())
    } else {
        s
    }
}

/// `s` without white space at either end.
pub open spec fn trim(s: Seq<char>) -> Seq<char> {
    trim_end(trim_start(s))
}

/// The lines of `s`: the pieces between newline characters. A text with no
/// newline is one line; a trailing newline ends in an empty last line.
pub open spec fn lines_of(s: Seq<char>) -> Seq<Seq<char>>
    decreases s.len(),
{
    if s.len() == 0 {
        seq![Seq::<char>::empty()]
    } else {
        let prev = lines_of(s.drop_last());
        if s.last() == '\n' {
            prev.push(Seq::<char>::empty())
        } else {
            prev.update(prev.len() - 1, prev.last().push(s.last()))
        }
    }
}

/// The characters of `cs` from `r.0` up to `r.1`.
pub open spec fn span(cs: Seq<char>, r: (usize, usize)) -> Seq<char> {
    cs.subrange(r.0 as int, r.1 as int)
}

/// Every text has at least one line, if an empty one.
pub proof fn lemma_lines_of_nonempty(s: Seq<char>)
    ensures
        lines_of(s).len() >= 1,
    decreases s.len(),
{
    if s.len() > 0 {
        lemma_lines_of_nonempty(s.drop_last());
    }
}

/// Whether `c` is white space; see `is_ws`.
pub fn is_whitespace(c: char) -> (r: bool)
    ensures
        r == is_ws(c),
{
    let u = c as u32;
    (9 <= u && u <= 13) || u == 32 || u == 0x85 || u == 0xA0 || u == 0x1680 || (0x2000 <= u && u
        <= 0x200A) || u == 0x2028 || u == 0x2029 || u == 0x202F || u == 0x205F || u == 0x3000
}

/// The characters of `text`, in order.
pub fn chars_of(text: &str) -> (r: Vec<char>)
    ensures
        r@ == text@,
{
    broadcast use vstd::string::group_string_axioms;

    let mut out: Vec<char> = Vec::new();
    for c in it: text.chars()
        invariant
            it.seq() == text@,
            out@ == it.seq().take(it.index() as int),
    {
        out.push(c);
        proof {
            assert(out@ =~= it.seq().take(it.index() + 1));
        }
    }
    proof {
        assert(out@ =~= text@);
    }
    out
}

/// The bounds, inside `cs`, of the text of the span `a..b` with white space
/// taken off both ends.
pub fn trim_span(cs: &Vec<char>, a: usize, b: usize) -> (r: (usize, usize))
    requires
        a <= b <= cs@.len(),
    ensures
        a <= r.0 <= r.1 <= b,
        span(cs@, r) == trim(cs@.subrange(a as int, b as int)),
{
    let mut x = a;
    while x < b && is_whitespace(cs[x])
        invariant
            a <= x <= b <= cs@.len(),
            trim_start(cs@.subrange(a as int, b as int)) == trim_start(
                cs@.subrange(x as int, b as int),
            ),
        decreases b - x,
    {
        proof {
            assert(cs@.subrange(x as int, b as int).drop_first() =~= cs@.subrange(
                x + 1,
                b as int,
            ));
        }
        x += 1;
    }
    let mut y = b;
    while y > x && is_whitespace(cs[y - 1])
        invariant
            a <= x <= y <= b <= cs@.len(),
            trim_start(cs@.subrange(a as int, b as int)) == cs@.subrange(x as int, b as int),
            trim_end(cs@.subrange(x as int, b as int)) == trim_end(
                cs@.subrange(x as int, y as int),
            ),
        decreases y - x,
    {
        proof {
            assert(cs@.subrange(x as int, y as int).drop_last() =~= cs@.subrange(
                x as int,
                y - 1,
            ));
        }
        y -= 1;
    }
    (x, y)
}

/// Whether the span `a..b` of `cs` starts with a tab or with four spaces.
pub fn starts_indented(cs: &Vec<char>, a: usize, b: usize) -> (r: bool)
    requires
        a <= b <= cs@.len(),
    ensures
        r == is_indented(cs@.subrange(a as int, b as int)),
{
    if a < b && cs[a] == '\t' {
        true
    } else if b - a >= 4 {
        cs[a] == ' ' && cs[a + 1] == ' ' && cs[a + 2] == ' ' && cs[a + 3] == ' '
    } else {
        false
    }
}

/// A line is indented when it starts with a tab or with four spaces.
pub open spec fn is_indented(l: Seq<char>) -> bool {
    ||| (l.len() >= 1 && l[0] == '\t')
    ||| (l.len() >= 4 && l[0] == ' ' && l[1] == ' ' && l[2] == ' ' && l[3] == ' ')
}

/// The line without its indent marker: one tab, or else four spaces.
pub open spec fn strip_indent(l: Seq<char>) -> Seq<char> {
    if l.len() >= 1 && l[0] == '\t' {
        l.drop_first()
    } else if is_indented(l) {
        l.skip(4)
    } else {
        l
    }
}

/// Taking the indent marker off a line before trimming it changes nothing:
/// the marker is white space.
pub proof fn lemma_strip_indent_then_trim(l: Seq<char>)
    ensures
        trim(strip_indent(l)) == trim(l),
{
    if l.len() >= 1 && l[0] == '\t' {
        assert(is_ws(l[0]));
    } else if is_indented(l) {
        assert(l.drop_first() =~= l.skip(1));
        assert(l.skip(1).drop_first() =~= l.skip(2));
        assert(l.skip(2).drop_first() =~= l.skip(3));
        assert(l.skip(3).drop_first() =~= l.skip(4));
        assert(trim_start(l.skip(3)) == trim_start(l.skip(4)));
        assert(trim_start(l.skip(2)) == trim_start(l.skip(3)));
        assert(trim_start(l.skip(1)) == trim_start(l.skip(2)));
        assert(trim_start(l) == trim_start(l.skip(1)));
    }
}

/// A line is blank when nothing but white space is on it.
pub open spec fn is_blank(l: Seq<char>) -> bool {
    trim(l).len() == 0
}

/// The bounds of each line of `cs`, in order.
pub fn line_spans(cs: &Vec<char>) -> (r: Vec<(usize, usize)>)
    ensures
        r@.len() == lines_of(cs@).len(),
        forall|k: int|
            0 <= k < r@.len() ==> r@[k].0 <= r@[k].1 <= cs@.len() && span(cs@, #[trigger] r@[k])
                == lines_of(cs@)[k],
{
    let n = cs.len();
    let mut spans: Vec<(usize, usize)> = Vec::new();
    let mut start: usize = 0;
    let mut i: usize = 0;
    while i < n
        invariant
            n == cs@.len(),
            start <= i <= n,
            spans@.len() + 1 == lines_of(cs@.take(i as int)).len(),
            forall|k: int|
                0 <= k < spans@.len() ==> spans@[k].0 <= spans@[k].1 <= n && span(
                    cs@,
                    #[trigger] spans@[k],
                ) == lines_of(cs@.take(i as int))[k],
            cs@.subrange(start as int, i as int) == lines_of(cs@.take(i as int)).last(),
        decreases n - i,
    {
        let ghost prefix = cs@.take(i + 1);
        proof {
            assert(prefix.drop_last() =~= cs@.take(i as int));
            assert(prefix.last() == cs@[i as int]);
            lemma_lines_of_nonempty(cs@.take(i as int));
        }
        if cs[i] == '\n' {
            spans.push((start, i));
            start = i + 1;
            proof {
                assert(cs@.subrange(start as int, i + 1) =~= Seq::<char>::empty());
            }
        } else {
            proof {
                assert(cs@.subrange(start as int, i + 1) =~= cs@.subrange(
                    start as int,
                    i as int,
                ).push(cs@[i as int]));
            }
        }
        i += 1;
    }
    proof {
        assert(cs@.take(n as int) =~= cs@);
        lemma_lines_of_nonempty(cs@);
    }
    spans.push((start, n));
    spans
}

} // verus!

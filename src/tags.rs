//! The build-tag block language.
//!
//! A block opens on a line whose text (blanks trimmed) is `# {TAG-` and
//! closes on the next line whose text is `# -TAG}` for the same tag.
//! Processing for a tag keeps the body of every block of that tag, drops
//! every other block whole, drops all marker lines, and leaves text outside
//! blocks where it was. A block that never closes is kept verbatim.
use vstd::prelude::*;

verus! {

/// Relies on `String::push`: the character is appended at the end.
pub assume_specification[ String::push ](s: &mut String, ch: char)
    ensures
        final(s)@ == old(s)@.push(ch),
;

/// Characters trimmed around a marker line.
pub open spec fn is_blank(c: char) -> bool {
    c == ' ' || c == '\t' || c == '\r' || c == '\n'
}

/// End (exclusive, terminator included) of the line that starts at `i`.
pub open spec fn line_end(s: Seq<char>, i: int) -> int
    decreases s.len() - i,
{
    if i < 0 || i >= s.len() {
        s.len() as int
    } else if s[i] == '\n' {
        i + 1
    } else {
        line_end(s, i + 1)
    }
}

/// `hi`, moved left past trailing blanks of `s[lo..hi]`.
pub open spec fn trim_hi(s: Seq<char>, lo: int, hi: int) -> int
    decreases hi - lo,
{
    if lo < hi && is_blank(s[hi - 1]) {
        trim_hi(s, lo, hi - 1)
    } else {
        hi
    }
}

/// `lo`, moved right past leading blanks of `s[lo..hi]`.
pub open spec fn trim_lo(s: Seq<char>, lo: int, hi: int) -> int
    decreases hi - lo,
{
    if lo < hi && is_blank(s[lo]) {
        trim_lo(s, lo + 1, hi)
    } else {
        lo
    }
}

/// The tag of the line `s[i..j]` when its trimmed text is `# ` + `open` +
/// a non-empty tag + `close`.
pub open spec fn line_marker(s: Seq<char>, i: int, j: int, open: char, close: char) -> Option<
    Seq<char>,
> {
    let b = trim_hi(s, i, j);
    let a = trim_lo(s, i, b);
    if b - a >= 5 && s[a] == '#' && s[a + 1] == ' ' && s[a + 2] == open && s[b - 1] == close {
        Some(s.subrange(a + 3, b - 1))
    } else {
        None
    }
}

/// Tag opened by the line `s[i..j]`, if it is a start marker.
pub open spec fn start_tag(s: Seq<char>, i: int, j: int) -> Option<Seq<char>> {
    line_marker(s, i, j, '{', '-')
}

/// Tag closed by the line `s[i..j]`, if it is an end marker.
pub open spec fn end_tag(s: Seq<char>, i: int, j: int) -> Option<Seq<char>> {
    line_marker(s, i, j, '-', '}')
}

pub proof fn lemma_line_end(s: Seq<char>, i: int)
    requires
        0 <= i < s.len(),
    ensures
        i < line_end(s, i) <= s.len(),
    decreases s.len() - i,
{
    if s[i] != '\n' {
        if i + 1 < s.len() {
            lemma_line_end(s, i + 1);
        } else {
            assert(line_end(s, i + 1) == s.len());
        }
    }
}

/// Output for `s[i..]`, processing for tag `t`. When `inside`, a block of
/// tag `tag` is open: its start line begins at `raw`, its body at `body`.
pub open spec fn scan_from(
    s: Seq<char>,
    t: Seq<char>,
    i: int,
    inside: bool,
    tag: Seq<char>,
    raw: int,
    body: int,
) -> Seq<char>
    decreases s.len() - i,
{
    if i < 0 || i >= s.len() {
        if inside {
            s.subrange(raw, s.len() as int)
        } else {
            Seq::empty()
        }
    } else {
        let j = line_end(s, i);
        proof {
            lemma_line_end(s, i);
        }
        if !inside {
            match start_tag(s, i, j) {
                Some(g) => scan_from(s, t, j, true, g, i, j),
                None => s.subrange(i, j) + scan_from(s, t, j, false, tag, raw, body),
            }
        } else if end_tag(s, i, j) == Some(tag) {
            (if tag == t {
                s.subrange(body, i)
            } else {
                Seq::empty()
            }) + scan_from(s, t, j, false, tag, raw, body)
        } else {
            scan_from(s, t, j, true, tag, raw, body)
        }
    }
}

/// The text `s` processed for tag `t`.
pub open spec fn processed(s: Seq<char>, t: Seq<char>) -> Seq<char> {
    scan_from(s, t, 0, false, Seq::empty(), 0, 0)
}

/// Whether some line of `s[i..]` is a start marker for tag `t`.
pub open spec fn has_start_from(s: Seq<char>, t: Seq<char>, i: int) -> bool
    decreases s.len() - i,
{
    if i < 0 || i >= s.len() {
        false
    } else {
        let j = line_end(s, i);
        proof {
            lemma_line_end(s, i);
        }
        start_tag(s, i, j) == Some(t) || has_start_from(s, t, j)
    }
}

/// Whether some line of `s` opens a block of tag `t`.
pub open spec fn has_start_marker(s: Seq<char>, t: Seq<char>) -> bool {
    has_start_from(s, t, 0)
}

fn blank(c: char) -> (r: bool)
    ensures
        r == is_blank(c),
{
    c == ' ' || c == '\t' || c == '\r' || c == '\n'
}

/// The characters of `s`, in order.
pub fn chars_of(s: &str) -> (r: Vec<char>)
    ensures
        r@ == s@,
{
    let mut v: Vec<char> = Vec::new();
    for c in it: s.chars()
        invariant
            it.seq() == s@,
            v@ == it.seq().subrange(0, it.index() as int),
    {
        v.push(c);
        assert(v@ =~= it.seq().subrange(0, it.index() + 1));
    }
    assert(v@ =~= s@);
    v
}

fn find_line_end(s: &Vec<char>, i: usize) -> (j: usize)
    requires
        i < s.len(),
    ensures
        j == line_end(s@, i as int),
        i < j <= s.len(),
{
    let mut k = i;
    while k < s.len() && s[k] != '\n'
        invariant
            i <= k <= s.len(),
            line_end(s@, k as int) == line_end(s@, i as int),
        decreases s.len() - k,
    {
        k = k + 1;
    }
    if k < s.len() {
        k + 1
    } else {
        k
    }
}

/// Whether `a[ai..aj]` and `b[bi..bj]` hold the same characters.
pub(crate) fn slice_eq(a: &Vec<char>, ai: usize, aj: usize, b: &Vec<char>, bi: usize, bj: usize) -> (r: bool)
    requires
        ai <= aj <= a.len(),
        bi <= bj <= b.len(),
    ensures
        r == (a@.subrange(ai as int, aj as int) == b@.subrange(bi as int, bj as int)),
{
    if aj - ai != bj - bi {
        assert(a@.subrange(ai as int, aj as int).len() != b@.subrange(bi as int, bj as int).len());
        return false;
    }
    let n = aj - ai;
    let mut k: usize = 0;
    while k < n
        invariant
            n == aj - ai,
            n == bj - bi,
            ai <= aj <= a.len(),
            bi <= bj <= b.len(),
            k <= n,
            a@.subrange(ai as int, ai + k) == b@.subrange(bi as int, bi + k),
        decreases n - k,
    {
        if a[ai + k] != b[bi + k] {
            assert(a@.subrange(ai as int, aj as int)[k as int] != b@.subrange(
                bi as int,
                bj as int,
            )[k as int]);
            return false;
        }
        assert(a@.subrange(ai as int, ai + k + 1) =~= a@.subrange(ai as int, ai + k).push(a@[ai + k]));
        assert(b@.subrange(bi as int, bi + k + 1) =~= b@.subrange(bi as int, bi + k).push(b@[bi + k]));
        k = k + 1;
    }
    true
}

/// Finds the marker of the line `s[i..j]`, as a range of `s` holding its tag.
fn find_marker(s: &Vec<char>, i: usize, j: usize, open: char, close: char) -> (r: Option<
    (usize, usize),
>)
    requires
        i <= j <= s.len(),
    ensures
        match r {
            Some((x, y)) => x <= y <= s.len() && line_marker(s@, i as int, j as int, open, close)
                == Some(s@.subrange(x as int, y as int)),
            None => line_marker(s@, i as int, j as int, open, close) is None,
        },
{
    let mut b = j;
    while b > i && blank(s[b - 1])
        invariant
            i <= b <= j <= s.len(),
            trim_hi(s@, i as int, b as int) == trim_hi(s@, i as int, j as int),
        decreases b,
    {
        b = b - 1;
    }
    let mut a = i;
    while a < b && blank(s[a])
        invariant
            i <= a <= b <= s.len(),
            trim_lo(s@, a as int, b as int) == trim_lo(s@, i as int, b as int),
        decreases b - a,
    {
        a = a + 1;
    }
    if b - a >= 5 && s[a] == '#' && s[a + 1] == ' ' && s[a + 2] == open && s[b - 1] == close {
        Some((a + 3, b - 1))
    } else {
        None
    }
}

/// Appends `s[x..y]` to `out`.
pub(crate) fn push_range(out: &mut String, s: &Vec<char>, x: usize, y: usize)
    requires
        x <= y <= s.len(),
    ensures
        final(out)@ == old(out)@ + s@.subrange(x as int, y as int),
{
    let mut k = x;
    while k < y
        invariant
            x <= k <= y <= s.len(),
            out@ == old(out)@ + s@.subrange(x as int, k as int),
        decreases y - k,
    {
        out.push(s[k]);
        k = k + 1;
        assert(out@ =~= old(out)@ + s@.subrange(x as int, k as int));
    }
}

/// Processes `content` for `build_tag`: the bodies of the blocks of that tag
/// stay without their markers, every other block goes away whole.
pub fn process_file_with_build_tags(content: &str, build_tag: &str) -> (r: String)
    ensures
        r@ == processed(content@, build_tag@),
{
    let s = chars_of(content);
    let t = chars_of(build_tag);
    let mut out = String::new();
    let mut i: usize = 0;
    let mut inside = false;
    let mut ta: usize = 0;
    let mut tb: usize = 0;
    let mut raw: usize = 0;
    let mut body: usize = 0;
    assert(s@.subrange(0, 0) =~= Seq::<char>::empty());
    assert(out@ + processed(s@, t@) =~= processed(s@, t@));
    while i < s.len()
        invariant
            s@ == content@,
            t@ == build_tag@,
            i <= s.len(),
            ta <= tb <= s.len(),
            raw <= body <= i,
            out@ + scan_from(s@, t@, i as int, inside, s@.subrange(ta as int, tb as int), raw as int, body as int)
                == processed(s@, t@),
        decreases s.len() - i,
    {
        let ghost out0 = out@;
        let ghost tag0 = s@.subrange(ta as int, tb as int);
        let j = find_line_end(&s, i);
        let ghost rest = scan_from(s@, t@, j as int, inside, tag0, raw as int, body as int);
        if !inside {
            match find_marker(&s, i, j, '{', '-') {
                Some((x, y)) => {
                    inside = true;
                    ta = x;
                    tb = y;
                    raw = i;
                    body = j;
                },
                None => {
                    push_range(&mut out, &s, i, j);
                    assert(out0 + (s@.subrange(i as int, j as int) + rest) =~= out@ + rest);
                },
            }
        } else {
            let closes = match find_marker(&s, i, j, '-', '}') {
                Some((x, y)) => slice_eq(&s, x, y, &s, ta, tb),
                None => false,
            };
            if closes {
                assert(t@.subrange(0, t@.len() as int) =~= t@);
                if slice_eq(&s, ta, tb, &t, 0, t.len()) {
                    push_range(&mut out, &s, body, i);
                    assert(out0 + (s@.subrange(body as int, i as int) + rest) =~= out@ + rest);
                } else {
                    assert(out0 + (Seq::<char>::empty() + rest) =~= out@ + rest);
                }
                inside = false;
            }
        }
        i = j;
    }
    if inside {
        push_range(&mut out, &s, raw, s.len());
    } else {
        assert(out@ + Seq::<char>::empty() =~= out@);
    }
    out
}

/// Whether some line of `content` opens a block of `build_tag`.
pub fn has_tag_marker(content: &str, build_tag: &str) -> (r: bool)
    ensures
        r == has_start_marker(content@, build_tag@),
{
    let s = chars_of(content);
    let t = chars_of(build_tag);
    let mut i: usize = 0;
    assert(t@.subrange(0, t@.len() as int) =~= t@);
    while i < s.len()
        invariant
            s@ == content@,
            t@ == build_tag@,
            t@.subrange(0, t@.len() as int) == t@,
            i <= s.len(),
            has_start_from(s@, t@, i as int) == has_start_marker(s@, t@),
        decreases s.len() - i,
    {
        let j = find_line_end(&s, i);
        match find_marker(&s, i, j, '{', '-') {
            Some((x, y)) => {
                if slice_eq(&s, x, y, &t, 0, t.len()) {
                    return true;
                }
            },
            None => {},
        }
        i = j;
    }
    false
}

/// Processing for a tag that opens no block removes every block and adds
/// nothing: the result is the same as for the empty tag, which no marker can
/// name.
pub proof fn absent_tag_removes_every_block(s: Seq<char>, t: Seq<char>)
    requires
        !has_start_marker(s, t),
    ensures
        processed(s, t) == processed(s, Seq::empty()),
{
    lemma_empty_tag_absent(s, 0);
    lemma_absent_tags_agree(s, t, Seq::empty(), 0, false, Seq::empty(), 0, 0);
}

proof fn lemma_empty_tag_absent(s: Seq<char>, i: int)
    requires
        0 <= i,
    ensures
        !has_start_from(s, Seq::empty(), i),
    decreases s.len() - i,
{
    if i < s.len() {
        let j = line_end(s, i);
        lemma_line_end(s, i);
        let b = trim_hi(s, i, j);
        lemma_trim_hi(s, i, j);
        lemma_trim_lo(s, i, b);
        if let Some(g) = start_tag(s, i, j) {
            assert(g.len() >= 1);
        }
        lemma_empty_tag_absent(s, j);
    }
}

proof fn lemma_trim_hi(s: Seq<char>, lo: int, hi: int)
    requires
        lo <= hi,
    ensures
        lo <= trim_hi(s, lo, hi) <= hi,
    decreases hi - lo,
{
    if lo < hi && is_blank(s[hi - 1]) {
        lemma_trim_hi(s, lo, hi - 1);
    }
}

proof fn lemma_trim_lo(s: Seq<char>, lo: int, hi: int)
    requires
        lo <= hi,
    ensures
        lo <= trim_lo(s, lo, hi) <= hi,
    decreases hi - lo,
{
    if lo < hi && is_blank(s[lo]) {
        lemma_trim_lo(s, lo + 1, hi);
    }
}

proof fn lemma_absent_tags_agree(
    s: Seq<char>,
    t1: Seq<char>,
    t2: Seq<char>,
    i: int,
    inside: bool,
    tag: Seq<char>,
    raw: int,
    body: int,
)
    requires
        0 <= i,
        !has_start_from(s, t1, i),
        !has_start_from(s, t2, i),
        inside ==> tag != t1 && tag != t2,
    ensures
        scan_from(s, t1, i, inside, tag, raw, body) == scan_from(s, t2, i, inside, tag, raw, body),
    decreases s.len() - i,
{
    if i < s.len() {
        let j = line_end(s, i);
        lemma_line_end(s, i);
        if !inside {
            match start_tag(s, i, j) {
                Some(g) => lemma_absent_tags_agree(s, t1, t2, j, true, g, i, j),
                None => lemma_absent_tags_agree(s, t1, t2, j, false, tag, raw, body),
            }
        } else if end_tag(s, i, j) == Some(tag) {
            lemma_absent_tags_agree(s, t1, t2, j, false, tag, raw, body);
        } else {
            lemma_absent_tags_agree(s, t1, t2, j, true, tag, raw, body);
        }
    }
}

} // verus!

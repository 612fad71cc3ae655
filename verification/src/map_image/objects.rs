//! The `Objects` file of a map archive: an XML list of placed objects,
//! one tag per line. Only the start locations matter here: the lines
//! holding `Type="StartLoc"` and their `Position="x,y,z"` attribute.

use vstd::prelude::*;

use crate::text::push_char;

verus! {

/// `needle` occurs in `s` at index `i`.
pub open spec fn occurs_at(s: Seq<char>, needle: Seq<char>, i: int) -> bool {
    0 <= i && i + needle.len() <= s.len() && s.subrange(i, i + needle.len() as int) == needle
}

/// Index of the first occurrence of `needle` in `s` at or after `i`, or -1.
pub open spec fn find_from(s: Seq<char>, needle: Seq<char>, i: int) -> int
    decreases s.len() + 1 - i,
{
    if i < 0 || i + needle.len() > s.len() {
        -1
    } else if occurs_at(s, needle, i) {
        i
    } else {
        find_from(s, needle, i + 1)
    }
}

/// `needle` occurs somewhere in `s`.
pub open spec fn contains_spec(s: Seq<char>, needle: Seq<char>) -> bool {
    find_from(s, needle, 0) >= 0
}

/// The value of the attribute `attr="..."` in a line: the text after the
/// first `attr="` up to the next `"`.
pub open spec fn extract_attr_spec(line: Seq<char>, attr: Seq<char>) -> Option<Seq<char>> {
    let needle = attr + "=\""@;
    let at = find_from(line, needle, 0);
    if at < 0 {
        None
    } else {
        let start = at + needle.len();
        let end = find_from(line, seq!['"'], start);
        if end < 0 {
            None
        } else {
            Some(line.subrange(start, end))
        }
    }
}

/// `s` without one trailing carriage return.
pub open spec fn strip_cr(s: Seq<char>) -> Seq<char> {
    if s.len() > 0 && s.last() == '\r' {
        s.drop_last()
    } else {
        s
    }
}

/// The complete lines of `s` (each without its `\n`, and without a `\r`
/// just before it) and the text after the last `\n`.
pub open spec fn scan_lines(s: Seq<char>) -> (Seq<Seq<char>>, Seq<char>)
    decreases s.len(),
{
    if s.len() == 0 {
        (Seq::empty(), Seq::empty())
    } else {
        let prev = scan_lines(s.drop_last());
        if s.last() == '\n' {
            (prev.0.push(strip_cr(prev.1)), Seq::empty())
        } else {
            (prev.0, prev.1.push(s.last()))
        }
    }
}

/// The lines of `s` as `str::lines` gives them: split at `\n` (and
/// `\r\n`), the final line ending optional.
pub open spec fn lines_spec(s: Seq<char>) -> Seq<Seq<char>> {
    let sc = scan_lines(s);
    if sc.1.len() > 0 {
        sc.0.push(sc.1)
    } else {
        sc.0
    }
}

/// The `Position` values of the start-location lines, in order.
pub open spec fn positions_of(lines: Seq<Seq<char>>) -> Seq<Seq<char>>
    decreases lines.len(),
{
    if lines.len() == 0 {
        Seq::empty()
    } else {
        let prev = positions_of(lines.drop_last());
        let l = lines.last();
        if contains_spec(l, "Type=\"StartLoc\""@) {
            match extract_attr_spec(l, "Position"@) {
                Some(p) => prev.push(p),
                None => prev,
            }
        } else {
            prev
        }
    }
}

/// Where `needle` first occurs in `s` at or after `from`.
pub(crate) fn find_chars(s: &Vec<char>, needle: &Vec<char>, from: usize) -> (r: Option<usize>)
    requires
        from <= s@.len(),
    ensures
        match r {
            Some(i) => i == find_from(s@, needle@, from as int),
            None => find_from(s@, needle@, from as int) == -1,
        },
{
    let n = s.len();
    let m = needle.len();
    let mut i = from;
    while i <= n && m <= n - i
        invariant
            from <= i,
            n == s@.len(),
            m == needle@.len(),
            find_from(s@, needle@, from as int) == find_from(s@, needle@, i as int),
        decreases n - i + 1,
    {
        let mut k: usize = 0;
        let mut same = true;
        while k < m
            invariant
                k <= m,
                i + m <= n,
                n == s@.len(),
                m == needle@.len(),
                same <==> forall|j: int| 0 <= j < k ==> s@[i + j] == needle@[j],
            decreases m - k,
        {
            if s[i + k] != needle[k] {
                same = false;
            }
            k = k + 1;
        }
        if same {
            assert(s@.subrange(i as int, i + m) =~= needle@);
            return Some(i);
        }
        assert(!occurs_at(s@, needle@, i as int)) by {
            if s@.subrange(i as int, i + m) == needle@ {
                assert forall|j: int| 0 <= j < m implies s@[i + j] == needle@[j] by {
                    assert(s@.subrange(i as int, i + m)[j] == s@[i + j]);
                }
            }
        }
        i = i + 1;
    }
    None
}

/// The characters of `s`.
pub(crate) fn chars_of(s: &str) -> (r: Vec<char>)
    ensures
        r@ == s@,
{
    let n = s.unicode_len();
    let mut out: Vec<char> = Vec::new();
    let mut i: usize = 0;
    while i < n
        invariant
            i <= n,
            n == s@.len(),
            out@ == s@.subrange(0, i as int),
        decreases n - i,
    {
        out.push(s.get_char(i));
        i = i + 1;
        assert(out@ =~= s@.subrange(0, i as int));
    }
    assert(s@.subrange(0, n as int) =~= s@);
    out
}

/// `s[from..to]` as a `String`.
fn collect_range(s: &Vec<char>, from: usize, to: usize) -> (r: String)
    requires
        from <= to <= s@.len(),
    ensures
        r@ == s@.subrange(from as int, to as int),
{
    let mut out = String::new();
    let mut i = from;
    while i < to
        invariant
            from <= i <= to,
            to <= s@.len(),
            out@ == s@.subrange(from as int, i as int),
        decreases to - i,
    {
        push_char(&mut out, s[i]);
        i = i + 1;
        assert(out@ =~= s@.subrange(from as int, i as int));
    }
    out
}

/// The value of the attribute `attr` in the line `line` (chars).
fn extract_attr_chars(line: &Vec<char>, attr: &str) -> (r: Option<String>)
    ensures
        match r {
            Some(v) => extract_attr_spec(line@, attr@) == Some(v@),
            None => extract_attr_spec(line@, attr@) is None,
        },
{
    let mut needle = chars_of(attr);
    needle.push('=');
    needle.push('"');
    proof {
        reveal_strlit("=\"");
        assert(needle@ =~= attr@ + "=\""@);
    }
    match find_chars(line, &needle, 0) {
        None => None,
        Some(at) => {
            proof {
                lemma_find_from_range(line@, needle@, 0);
                assert(at as int == find_from(line@, needle@, 0));
                assert(at + needle@.len() <= line@.len());
            }
            let ll = line.len();
            let nl = needle.len();
            assert(at + nl <= ll);
            let start = at + nl;
            let quote: Vec<char> = vec!['"'];
            assert(quote@ =~= seq!['"']);
            match find_chars(line, &quote, start) {
                None => None,
                Some(end) => {
                    proof {
                        lemma_find_from_range(line@, quote@, start as int);
                    }
                    Some(collect_range(line, start, end))
                },
            }
        },
    }
}

/// `find_from` is -1 or an index where the needle fits, at or after `i`.
proof fn lemma_find_from_range(s: Seq<char>, needle: Seq<char>, i: int)
    ensures
        find_from(s, needle, i) == -1 || (i <= find_from(s, needle, i) && find_from(s, needle, i)
            + needle.len() <= s.len()),
    decreases s.len() + 1 - i,
{
    if !(i < 0 || i + needle.len() > s.len()) && !occurs_at(s, needle, i) {
        lemma_find_from_range(s, needle, i + 1);
    }
}

/// The value of the attribute `attr` (`attr="value"`) in an XML line.
pub fn extract_attr(line: &str, attr: &str) -> (r: Option<String>)
    ensures
        match r {
            Some(v) => extract_attr_spec(line@, attr@) == Some(v@),
            None => extract_attr_spec(line@, attr@) is None,
        },
{
    let chars = chars_of(line);
    extract_attr_chars(&chars, attr)
}

/// Appends the position of a start-location line, if it has one.
fn take_line(out: &mut Vec<String>, line: &Vec<char>, type_needle: &Vec<char>)
    requires
        type_needle@ == "Type=\"StartLoc\""@,
    ensures
        final(out)@.map_values(|v: String| v@) == old(out)@.map_values(|v: String| v@) + positions_of(
            seq![line@],
        ),
{
    let ghost lines = seq![line@];
    assert(lines.drop_last() =~= Seq::<Seq<char>>::empty());
    assert(lines.last() == line@);
    assert(positions_of(Seq::<Seq<char>>::empty()) =~= Seq::<Seq<char>>::empty());
    let ghost before = out@.map_values(|v: String| v@);
    match find_chars(line, type_needle, 0) {
        None => {
            assert(positions_of(lines) =~= Seq::<Seq<char>>::empty());
            assert(before + positions_of(lines) =~= before);
        },
        Some(_) => match extract_attr_chars(line, "Position") {
            Some(p) => {
                assert(positions_of(lines) =~= seq![p@]);
                out.push(p);
                assert(out@.map_values(|v: String| v@) =~= before + positions_of(lines));
            },
            None => {
                assert(positions_of(lines) =~= Seq::<Seq<char>>::empty());
                assert(before + positions_of(lines) =~= before);
            },
        },
    }
}

/// Positions of a list of lines split into its prefix and last line.
proof fn lemma_positions_push(lines: Seq<Seq<char>>, l: Seq<char>)
    ensures
        positions_of(lines.push(l)) == positions_of(lines) + positions_of(seq![l]),
{
    let one = seq![l];
    assert(lines.push(l).drop_last() =~= lines);
    assert(one.drop_last() =~= Seq::<Seq<char>>::empty());
    assert(positions_of(Seq::<Seq<char>>::empty()) =~= Seq::<Seq<char>>::empty());
    if contains_spec(l, "Type=\"StartLoc\""@) {
        match extract_attr_spec(l, "Position"@) {
            Some(p) => {
                assert(positions_of(one) =~= seq![p]);
            },
            None => {
                assert(positions_of(one) =~= Seq::<Seq<char>>::empty());
            },
        }
    } else {
        assert(positions_of(one) =~= Seq::<Seq<char>>::empty());
    }
}

/// The raw `Position` attribute values (`"x,y,z"`) of the start-location
/// lines of an `Objects` file, in order; lines without a `Position` are
/// skipped.
pub fn start_loc_positions(text: &str) -> (r: Vec<String>)
    ensures
        r@.map_values(|v: String| v@) == positions_of(lines_spec(text@)),
{
    let chars = chars_of(text);
    let type_needle = chars_of("Type=\"StartLoc\"");
    let mut out: Vec<String> = Vec::new();
    let mut cur: Vec<char> = Vec::new();
    let n = chars.len();
    let mut i: usize = 0;
    while i < n
        invariant
            i <= n,
            n == chars@.len(),
            chars@ == text@,
            type_needle@ == "Type=\"StartLoc\""@,
            out@.map_values(|v: String| v@) == positions_of(scan_lines(chars@.subrange(0, i as int)).0),
            cur@ == scan_lines(chars@.subrange(0, i as int)).1,
        decreases n - i,
    {
        let c = chars[i];
        let ghost pre = chars@.subrange(0, i as int);
        assert(chars@.subrange(0, i + 1).drop_last() =~= pre);
        assert(chars@.subrange(0, i + 1).last() == c);
        if c == '\n' {
            if cur.len() > 0 && cur[cur.len() - 1] == '\r' {
                cur.pop();
            }
            proof {
                lemma_positions_push(scan_lines(pre).0, cur@);
            }
            take_line(&mut out, &cur, &type_needle);
            cur = Vec::new();
        } else {
            cur.push(c);
        }
        i = i + 1;
    }
    assert(chars@.subrange(0, n as int) =~= chars@);
    if cur.len() > 0 {
        proof {
            lemma_positions_push(scan_lines(text@).0, cur@);
        }
        take_line(&mut out, &cur, &type_needle);
    }
    out
}

} // verus!

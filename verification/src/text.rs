//! Scanning, comparing and slicing of source lines and paths.

use vstd::prelude::*;
use vstd::string::*;

verus! {

/// The number of elements of `s` before the first occurrence of `c`
/// (the length of `s` where `c` does not occur).
pub open spec fn find_first(s: Seq<char>, c: char) -> nat
    decreases s.len(),
{
    if s.len() == 0 || s[0] == c {
        0
    } else {
        1 + find_first(s.skip(1), c)
    }
}

/// `find_first` gives the place of the first `c`: a place within `s`, with
/// `c` at it where it lies before the end, and no `c` before it.
pub proof fn lemma_find_first_bound(s: Seq<char>, c: char)
    ensures
        find_first(s, c) <= s.len(),
        find_first(s, c) < s.len() ==> s[find_first(s, c) as int] == c,
        forall|i: int| 0 <= i < find_first(s, c) ==> s[i] != c,
    decreases s.len(),
{
    if s.len() != 0 && s[0] != c {
        lemma_find_first_bound(s.skip(1), c);
        assert forall|i: int| 0 <= i < find_first(s, c) implies s[i] != c by {
            if i > 0 {
                assert(s.skip(1)[i - 1] == s[i]);
            }
        }
    }
}

/// Whether `c` is white space in the sense of Unicode's `White_Space` property.
pub open spec fn is_space(c: char) -> bool {
    let u = c as u32;
    ||| 0x09 <= u <= 0x0D
    ||| u == 0x20
    ||| u == 0x85
    ||| u == 0xA0
    ||| u == 0x1680
    ||| 0x2000 <= u <= 0x200A
    ||| u == 0x2028
    ||| u == 0x2029
    ||| u == 0x202F
    ||| u == 0x205F
    ||| u == 0x3000
}

/// How many white-space characters `s` starts with.
pub open spec fn leading_spaces(s: Seq<char>) -> nat
    decreases s.len(),
{
    if s.len() == 0 || !is_space(s[0]) {
        0
    } else {
        1 + leading_spaces(s.skip(1))
    }
}

/// How many white-space characters `s` ends with.
pub open spec fn trailing_spaces(s: Seq<char>) -> nat
    decreases s.len(),
{
    if s.len() == 0 || !is_space(s.last()) {
        0
    } else {
        1 + trailing_spaces(s.drop_last())
    }
}

/// `s` without its leading and trailing white space.
pub open spec fn trimmed(s: Seq<char>) -> Seq<char> {
    let rest = s.skip(leading_spaces(s) as int);
    rest.take(rest.len() - trailing_spaces(rest))
}

/// The parts of `s` that the character `sep` separates. Two separators in
/// a row hold an empty part between them, and a text without a separator
/// is one part.
pub open spec fn split_on(s: Seq<char>, sep: char) -> Seq<Seq<char>>
    decreases s.len(),
{
    let k = find_first(s, sep);
    if k >= s.len() {
        seq![s]
    } else {
        seq![s.take(k as int)] + split_on(s.skip((k + 1) as int), sep)
    }
}

/// The fields of `s`, which single spaces separate.
pub open spec fn split_fields(s: Seq<char>) -> Seq<Seq<char>> {
    split_on(s, ' ')
}

/// The views of a sequence of string slices.
pub open spec fn str_views(parts: Seq<&str>) -> Seq<Seq<char>> {
    Seq::new(parts.len(), |i: int| parts[i]@)
}

/// Where the comment of a line starts: the index of the first `//`, or the
/// line's length where it has none.
pub open spec fn comment_start(s: Seq<char>) -> nat
    decreases s.len(),
{
    if s.len() < 2 {
        s.len()
    } else if s[0] == '/' && s[1] == '/' {
        0
    } else {
        1 + comment_start(s.skip(1))
    }
}

/// What a source line holds once its comment and the white space around the
/// rest are taken away.
pub open spec fn cleaned(s: Seq<char>) -> Seq<char> {
    trimmed(s.take(comment_start(s) as int))
}

/// What follows the last `/` of `s` (all of `s` where it has none).
pub open spec fn last_component(s: Seq<char>) -> Seq<char>
    decreases s.len(),
{
    let k = find_first(s, '/');
    if k >= s.len() {
        s
    } else {
        last_component(s.skip((k + 1) as int))
    }
}

/// The name of the unit that a path leads to: its last component up to the
/// first `.`.
pub open spec fn unit_name_of(path: Seq<char>) -> Seq<char> {
    let c = last_component(path);
    c.take(find_first(c, '.') as int)
}

/// Whether `c` is white space.
pub fn is_space_char(c: char) -> (r: bool)
    ensures
        r == is_space(c),
{
    let u: u32 = c as u32;
    (0x09 <= u && u <= 0x0D) || u == 0x20 || u == 0x85 || u == 0xA0 || u == 0x1680 || (0x2000 <= u
        && u <= 0x200A) || u == 0x2028 || u == 0x2029 || u == 0x202F || u == 0x205F || u == 0x3000
}

/// Finds the first `c` in `s[from..hi]`.
pub fn scan_for(s: &str, from: usize, hi: usize, c: char) -> (k: usize)
    requires
        from <= hi <= s@.len(),
    ensures
        from <= k <= hi,
        k == from + find_first(s@.subrange(from as int, hi as int), c),
{
    let mut i: usize = from;
    while i < hi && s.get_char(i) != c
        invariant
            from <= i <= hi <= s@.len(),
            from + find_first(s@.subrange(from as int, hi as int), c) == i + find_first(
                s@.subrange(i as int, hi as int),
                c,
            ),
        decreases hi - i,
    {
        proof {
            assert(s@.subrange(i as int, hi as int).skip(1) =~= s@.subrange(
                i as int + 1,
                hi as int,
            ));
        }
        i += 1;
    }
    i
}

/// Trims `s[lo..hi]`: the bounds of what is left.
pub fn trim_bounds(s: &str, lo: usize, hi: usize) -> (r: (usize, usize))
    requires
        lo <= hi <= s@.len(),
    ensures
        lo <= r.0 <= r.1 <= hi,
        s@.subrange(r.0 as int, r.1 as int) == trimmed(s@.subrange(lo as int, hi as int)),
{
    let mut i: usize = lo;
    while i < hi && is_space_char(s.get_char(i))
        invariant
            lo <= i <= hi <= s@.len(),
            lo + leading_spaces(s@.subrange(lo as int, hi as int)) == i + leading_spaces(
                s@.subrange(i as int, hi as int),
            ),
        decreases hi - i,
    {
        proof {
            assert(s@.subrange(i as int, hi as int).skip(1) =~= s@.subrange(
                i as int + 1,
                hi as int,
            ));
        }
        i += 1;
    }
    let mut j: usize = hi;
    while j > i && is_space_char(s.get_char(j - 1))
        invariant
            i <= j <= hi <= s@.len(),
            trailing_spaces(s@.subrange(i as int, hi as int)) == (hi - j) + trailing_spaces(
                s@.subrange(i as int, j as int),
            ),
        decreases j - i,
    {
        proof {
            assert(s@.subrange(i as int, j as int).drop_last() =~= s@.subrange(
                i as int,
                j as int - 1,
            ));
        }
        j -= 1;
    }
    proof {
        let whole = s@.subrange(lo as int, hi as int);
        let rest = whole.skip(leading_spaces(whole) as int);
        assert(rest =~= s@.subrange(i as int, hi as int));
        assert(rest.take(rest.len() - trailing_spaces(rest)) =~= s@.subrange(i as int, j as int));
    }
    (i, j)
}

/// Splits `s[lo..hi]` at every `sep`.
pub fn split_range<'a>(s: &'a str, lo: usize, hi: usize, sep: char) -> (parts: Vec<&'a str>)
    requires
        lo <= hi <= s@.len(),
    ensures
        str_views(parts@) == split_on(s@.subrange(lo as int, hi as int), sep),
        1 <= parts@.len() <= hi - lo + 1,
{
    let mut out: Vec<&'a str> = Vec::new();
    let mut start: usize = lo;
    let mut done = false;
    proof {
        assert(str_views(out@) =~= Seq::<Seq<char>>::empty());
        assert(str_views(out@) + split_on(s@.subrange(lo as int, hi as int), sep) =~= split_on(
            s@.subrange(lo as int, hi as int),
            sep,
        ));
    }
    while !done
        invariant
            lo <= start <= hi <= s@.len(),
            done ==> str_views(out@) == split_on(s@.subrange(lo as int, hi as int), sep),
            done ==> 1 <= out@.len() <= start - lo + 1,
            !done ==> out@.len() <= start - lo,
            !done ==> str_views(out@) + split_on(s@.subrange(start as int, hi as int), sep)
                == split_on(s@.subrange(lo as int, hi as int), sep),
        decreases hi - start + (if done { 0int } else { 1int }),
    {
        let k = scan_for(s, start, hi, sep);
        let ghost rest = s@.subrange(start as int, hi as int);
        let ghost before = str_views(out@);
        if k == hi {
            out.push(s.substring_char(start, hi));
            proof {
                assert(split_on(rest, sep) == seq![rest]);
                assert(str_views(out@) =~= before + seq![rest]);
            }
            done = true;
        } else {
            out.push(s.substring_char(start, k));
            proof {
                let part = s@.subrange(start as int, k as int);
                assert(rest.take(k - start) =~= part);
                assert(rest.skip(k - start + 1) =~= s@.subrange(k as int + 1, hi as int));
                let tail = split_on(s@.subrange(k as int + 1, hi as int), sep);
                assert(split_on(rest, sep) == seq![part] + tail);
                assert(str_views(out@) =~= before + seq![part]);
                assert((before + seq![part]) + tail =~= before + (seq![part] + tail));
            }
            start = k + 1;
        }
    }
    out
}

/// Splits a line into its fields: the line is trimmed, and every single space
/// of what is left ends a field.
pub fn split_line<'a>(line: &'a str) -> (fields: Vec<&'a str>)
    ensures
        str_views(fields@) == split_fields(trimmed(line@)),
{
    let n = line.unicode_len();
    proof {
        assert(line@.subrange(0, n as int) =~= line@);
    }
    let (a, b) = trim_bounds(line, 0, n);
    split_range(line, a, b, ' ')
}

/// Takes the comment and the surrounding white space off a source line.
/// A line that holds nothing else gives `None`.
pub fn clean_whitespace<'a>(line: &'a str) -> (r: Option<&'a str>)
    ensures
        match r {
            Some(t) => t@ == cleaned(line@) && t@.len() > 0,
            None => cleaned(line@).len() == 0,
        },
{
    let n = line.unicode_len();
    let mut i: usize = 0;
    let mut found = false;
    proof {
        assert(line@.skip(0) =~= line@);
    }
    while !found && n - i > 1
        invariant
            i <= n == line@.len(),
            comment_start(line@) == i + comment_start(line@.skip(i as int)),
            found ==> comment_start(line@.skip(i as int)) == 0,
        decreases n - i + (if found { 0int } else { 1int }),
    {
        if line.get_char(i) == '/' && line.get_char(i + 1) == '/' {
            found = true;
        } else {
            proof {
                assert(line@.skip(i as int).skip(1) =~= line@.skip(i as int + 1));
            }
            i += 1;
        }
    }
    let end: usize = if found { i } else { n };
    proof {
        assert(end == comment_start(line@));
        assert(line@.take(end as int) =~= line@.subrange(0, end as int));
    }
    let (a, b) = trim_bounds(line, 0, end);
    if a < b {
        Some(line.substring_char(a, b))
    } else {
        None
    }
}

/// The unit name that a file path stands for: its last component without
/// what follows the first `.`.
pub fn isolate_filename(filepath: &str) -> (name: String)
    ensures
        name@ == unit_name_of(filepath@),
{
    let n = filepath.unicode_len();
    let mut start: usize = 0;
    let mut done = false;
    proof {
        assert(filepath@.subrange(0, n as int) =~= filepath@);
    }
    while !done
        invariant
            start <= n == filepath@.len(),
            last_component(filepath@) == last_component(
                filepath@.subrange(start as int, n as int),
            ),
            done ==> last_component(filepath@) == filepath@.subrange(start as int, n as int),
        decreases n - start + (if done { 0int } else { 1int }),
    {
        let k = scan_for(filepath, start, n, '/');
        if k == n {
            done = true;
        } else {
            proof {
                assert(filepath@.subrange(start as int, n as int).skip(k - start + 1)
                    =~= filepath@.subrange(k as int + 1, n as int));
            }
            start = k + 1;
        }
    }
    let d = scan_for(filepath, start, n, '.');
    proof {
        assert(filepath@.subrange(start as int, n as int).take(d - start) =~= filepath@.subrange(
            start as int,
            d as int,
        ));
    }
    String::from_str(filepath.substring_char(start, d))
}

/// Whether two strings hold the same characters.
pub fn same_text(a: &str, b: &str) -> (r: bool)
    ensures
        r == (a@ == b@),
{
    let n = a.unicode_len();
    if b.unicode_len() != n {
        return false;
    }
    let mut i: usize = 0;
    while i < n
        invariant
            i <= n,
            n == a@.len(),
            n == b@.len(),
            forall|j: int| 0 <= j < i ==> a@[j] == b@[j],
        decreases n - i,
    {
        if a.get_char(i) != b.get_char(i) {
            return false;
        }
        i += 1;
    }
    proof {
        assert(a@ =~= b@);
    }
    true
}

} // verus!

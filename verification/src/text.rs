//! Text helpers: decimal rendering, substring search and simple edits,
//! each proved against a short specification over `Seq<char>`.

use vstd::prelude::*;
use vstd::string::StringExecFns;

verus! {

broadcast use vstd::string::group_string_axioms;

/// Appends one character to a string.
///
/// Trusted: calls `String::push`, whose documentation says it appends the
/// given `char` to the end of the string.
#[verifier::external_body]
pub(crate) fn push_char(s: &mut String, c: char)
    ensures
        final(s)@ == old(s)@.push(c),
{
    s.push(c);
}

/// The result of `str::to_lowercase` on a text; Unicode case mapping is
/// not restated here.
pub uninterp spec fn lowercase(s: Seq<char>) -> Seq<char>;

/// Lower-cases a text.
///
/// Trusted: calls `str::to_lowercase`; the contract only names its result,
/// which depends on the text alone.
#[verifier::external_body]
pub(crate) fn to_lowercase(s: &str) -> (r: String)
    ensures
        r@ == lowercase(s@),
{
    s.to_lowercase()
}

/// The `{:?}` rendering of a list of strings.
pub uninterp spec fn debug_list(xs: Seq<Seq<char>>) -> Seq<char>;

/// Renders a list of strings as `format!("{:?}", list)` does.
///
/// Trusted: calls the standard `Debug` formatting of `Vec<String>`; the
/// contract names its result, which depends on the strings alone.
#[verifier::external_body]
pub(crate) fn debug_string_list(list: &Vec<String>) -> (r: String)
    ensures
        r@ == debug_list(list@.map_values(|s: String| s@)),
{
    format!("{:?}", list)
}

/// A text that may be missing, as plain characters.
pub open spec fn opt_text(o: Option<String>) -> Option<Seq<char>> {
    match o {
        Some(s) => Some(s@),
        None => None,
    }
}

/// The decimal digit character for `d` (which is below ten).
pub open spec fn digit_char(d: nat) -> char {
    if d == 0 {
        '0'
    } else if d == 1 {
        '1'
    } else if d == 2 {
        '2'
    } else if d == 3 {
        '3'
    } else if d == 4 {
        '4'
    } else if d == 5 {
        '5'
    } else if d == 6 {
        '6'
    } else if d == 7 {
        '7'
    } else if d == 8 {
        '8'
    } else {
        '9'
    }
}

/// The decimal rendering of a natural number, without leading zeros.
pub open spec fn decimal(n: nat) -> Seq<char>
    decreases n,
{
    if n < 10 {
        seq![digit_char(n)]
    } else {
        decimal(n / 10).push(digit_char(n % 10))
    }
}

/// The decimal rendering of an integer, with a leading `-` when negative.
pub open spec fn signed_decimal(n: int) -> Seq<char> {
    if n < 0 {
        seq!['-'] + decimal((-n) as nat)
    } else {
        decimal(n as nat)
    }
}

fn digit_to_char(d: u64) -> (c: char)
    requires
        d < 10,
    ensures
        c == digit_char(d as nat),
{
    if d == 0 {
        '0'
    } else if d == 1 {
        '1'
    } else if d == 2 {
        '2'
    } else if d == 3 {
        '3'
    } else if d == 4 {
        '4'
    } else if d == 5 {
        '5'
    } else if d == 6 {
        '6'
    } else if d == 7 {
        '7'
    } else if d == 8 {
        '8'
    } else {
        '9'
    }
}

/// Appends the decimal rendering of `n` to `s`.
pub fn append_decimal(s: &mut String, n: u64)
    ensures
        final(s)@ == old(s)@ + decimal(n as nat),
    decreases n,
{
    if n < 10 {
        push_char(s, digit_to_char(n));
        assert(s@ =~= old(s)@ + decimal(n as nat));
    } else {
        append_decimal(s, n / 10);
        push_char(s, digit_to_char(n % 10));
        assert(s@ =~= old(s)@ + decimal(n as nat));
    }
}

/// Renders `n` in decimal, as `n.to_string()` does.
pub fn u64_to_decimal(n: u64) -> (r: String)
    ensures
        r@ == decimal(n as nat),
{
    let mut s = String::new();
    append_decimal(&mut s, n);
    assert(s@ =~= decimal(n as nat));
    s
}

/// Appends the decimal rendering of the signed `n` to `s`.
pub fn append_signed_decimal(s: &mut String, n: i64)
    ensures
        final(s)@ == old(s)@ + signed_decimal(n as int),
{
    if n < 0 {
        push_char(s, '-');
        let m: u64 = (0i128 - (n as i128)) as u64;
        append_decimal(s, m);
        assert(s@ =~= old(s)@ + signed_decimal(n as int));
    } else {
        append_decimal(s, n as u64);
    }
}

/// The length in bytes of the UTF-8 encoding of a text, as `str::len`
/// reports it.
pub open spec fn byte_len(s: Seq<char>) -> nat {
    (vstd::utf8::encode_utf8(s).len() as usize) as nat
}

/// The length of `s` in bytes, as `str::len` gives it.
pub fn str_byte_len(s: &str) -> (r: usize)
    ensures
        r == byte_len(s@),
{
    s.len()
}

/// The characters of `s`, in order.
pub fn chars_of(s: &str) -> (v: Vec<char>)
    ensures
        v@ == s@,
{
    let mut v: Vec<char> = Vec::new();
    for c in it: s.chars()
        invariant
            v@ == it.seq().take(it.index()),
            it.seq() == s@,
    {
        assert(c == it.seq()[it.index()]);
        v.push(c);
        assert(v@ =~= it.seq().take(it.index() + 1));
    }
    assert(v@ =~= s@);
    v
}

/// A string holding the characters `v[from..to]`.
pub fn string_of_range(v: &Vec<char>, from: usize, to: usize) -> (r: String)
    requires
        from <= to <= v@.len(),
    ensures
        r@ == v@.subrange(from as int, to as int),
{
    let mut r = String::new();
    let mut i = from;
    while i < to
        invariant
            from <= i <= to <= v@.len(),
            r@ == v@.subrange(from as int, i as int),
        decreases to - i,
    {
        push_char(&mut r, v[i]);
        i = i + 1;
        assert(r@ =~= v@.subrange(from as int, i as int));
    }
    r
}

/// A string holding the characters of `v`.
pub fn string_of_chars(v: &Vec<char>) -> (r: String)
    ensures
        r@ == v@,
{
    let r = string_of_range(v, 0, v.len());
    assert(v@.subrange(0, v@.len() as int) =~= v@);
    r
}

/// A fresh string with the contents of `a` followed by `b`.
pub fn concat(a: &str, b: &str) -> (r: String)
    ensures
        r@ == a@ + b@,
{
    let mut r = String::from_str(a);
    r.append(b);
    r
}

/// The texts of `xs` joined with `sep` between neighbours.
pub open spec fn join_texts(xs: Seq<Seq<char>>, sep: Seq<char>) -> Seq<char>
    decreases xs.len(),
{
    if xs.len() == 0 {
        Seq::empty()
    } else if xs.len() == 1 {
        xs[0]
    } else {
        join_texts(xs.drop_last(), sep) + sep + xs.last()
    }
}

/// The texts held by a list of strings.
pub open spec fn texts_of(v: Seq<String>) -> Seq<Seq<char>> {
    v.map_values(|s: String| s@)
}

/// Joins the strings of `list` with `sep` between neighbours, as
/// `list.join(sep)` does.
pub fn join(list: &Vec<String>, sep: &str) -> (r: String)
    ensures
        r@ == join_texts(texts_of(list@), sep@),
{
    let mut r = String::new();
    let mut i: usize = 0;
    while i < list.len()
        invariant
            i <= list@.len(),
            r@ == join_texts(texts_of(list@).take(i as int), sep@),
        decreases list@.len() - i,
    {
        let ghost before = texts_of(list@).take(i as int);
        assert(texts_of(list@).take(i + 1).drop_last() =~= before);
        if i != 0 {
            r.append(sep);
        }
        r.append(list[i].as_str());
        i = i + 1;
        assert(texts_of(list@).take(i as int).last() == list@[i - 1]@);
        if i == 1 {
            assert(before =~= Seq::<Seq<char>>::empty());
            assert(r@ =~= join_texts(texts_of(list@).take(i as int), sep@));
        }
    }
    assert(texts_of(list@).take(i as int) =~= texts_of(list@));
    r
}

/// `needle` occurs in `hay` starting at position `i`.
pub open spec fn occurs_at(hay: Seq<char>, needle: Seq<char>, i: int) -> bool {
    0 <= i && i + needle.len() <= hay.len() && hay.subrange(i, i + needle.len()) == needle
}

/// `needle` occurs somewhere in `hay` (as `str::contains` with a text pattern).
pub open spec fn has_substring(hay: Seq<char>, needle: Seq<char>) -> bool {
    exists|i: int| occurs_at(hay, needle, i)
}

/// Text placed between two others occurs in the whole.
pub proof fn lemma_infix_substring(before: Seq<char>, middle: Seq<char>, after: Seq<char>)
    ensures
        has_substring(before + middle + after, middle),
{
    let whole = before + middle + after;
    let i = before.len() as int;
    assert(whole.subrange(i, i + middle.len()) =~= middle);
    assert(occurs_at(whole, middle, i));
}

/// `hay` starts with `prefix`.
pub open spec fn has_prefix(hay: Seq<char>, prefix: Seq<char>) -> bool {
    occurs_at(hay, prefix, 0)
}

/// `hay` ends with `suffix`.
pub open spec fn has_suffix(hay: Seq<char>, suffix: Seq<char>) -> bool {
    occurs_at(hay, suffix, hay.len() - suffix.len())
}

/// Whether `needle` occurs in `hay` at position `i`.
pub fn occurs_at_exec(hay: &Vec<char>, needle: &Vec<char>, i: usize) -> (r: bool)
    ensures
        r == occurs_at(hay@, needle@, i as int),
{
    if needle.len() > hay.len() || i > hay.len() - needle.len() {
        return false;
    }
    let n = needle.len();
    let mut j: usize = 0;
    while j < n
        invariant
            n == needle@.len(),
            i + n <= hay@.len(),
            i + n <= hay.len(),
            j <= n,
            forall|k: int| 0 <= k < j ==> hay@[i + k] == needle@[k],
        decreases n - j,
    {
        if hay[i + j] != needle[j] {
            assert(hay@.subrange(i as int, i + n)[j as int] != needle@[j as int]);
            return false;
        }
        j = j + 1;
    }
    assert(hay@.subrange(i as int, i + n) =~= needle@);
    true
}

/// Whether `needle` occurs anywhere in `hay`.
pub fn contains_chars(hay: &Vec<char>, needle: &Vec<char>) -> (r: bool)
    ensures
        r == has_substring(hay@, needle@),
{
    if needle.len() > hay.len() {
        assert(forall|i: int| !occurs_at(hay@, needle@, i));
        return false;
    }
    let last = hay.len() - needle.len();
    let mut i: usize = 0;
    loop
        invariant
            last == hay@.len() - needle@.len(),
            i <= last,
            forall|k: int| 0 <= k < i ==> !occurs_at(hay@, needle@, k),
        decreases last - i,
    {
        if occurs_at_exec(hay, needle, i) {
            return true;
        }
        if i == last {
            assert(forall|k: int| !occurs_at(hay@, needle@, k));
            return false;
        }
        i = i + 1;
    }
}

/// Whether two texts are equal, as `a == b` on `&str`.
pub fn str_equal(a: &str, b: &str) -> (r: bool)
    ensures
        r == (a@ == b@),
{
    let x = chars_of(a);
    let y = chars_of(b);
    if x.len() != y.len() {
        return false;
    }
    let r = occurs_at_exec(&x, &y, 0);
    assert(x@.subrange(0, y@.len() as int) =~= x@);
    r
}

/// Whether `needle` occurs in `hay`, as `hay.contains(needle)`.
pub fn str_contains(hay: &str, needle: &str) -> (r: bool)
    ensures
        r == has_substring(hay@, needle@),
{
    let h = chars_of(hay);
    let n = chars_of(needle);
    contains_chars(&h, &n)
}

/// Whether `hay` starts with `prefix`.
pub fn str_starts_with(hay: &str, prefix: &str) -> (r: bool)
    ensures
        r == has_prefix(hay@, prefix@),
{
    let h = chars_of(hay);
    let p = chars_of(prefix);
    occurs_at_exec(&h, &p, 0)
}

/// Whether `hay` ends with `suffix`.
pub fn str_ends_with(hay: &str, suffix: &str) -> (r: bool)
    ensures
        r == has_suffix(hay@, suffix@),
{
    let h = chars_of(hay);
    let p = chars_of(suffix);
    if p.len() > h.len() {
        return false;
    }
    occurs_at_exec(&h, &p, h.len() - p.len())
}

/// `str::strip_prefix`: the rest of `s` after `prefix`, if it starts with it.
pub open spec fn strip_prefix_spec(s: Seq<char>, prefix: Seq<char>) -> Option<Seq<char>> {
    if has_prefix(s, prefix) {
        Some(s.subrange(prefix.len() as int, s.len() as int))
    } else {
        None
    }
}

/// `str::strip_suffix`: `s` without the trailing `suffix`, if it ends with it.
pub open spec fn strip_suffix_spec(s: Seq<char>, suffix: Seq<char>) -> Option<Seq<char>> {
    if has_suffix(s, suffix) {
        Some(s.subrange(0, s.len() - suffix.len()))
    } else {
        None
    }
}

/// Removes `prefix` from the front of `s`, if it is there.
pub fn strip_prefix(s: &str, prefix: &str) -> (r: Option<String>)
    ensures
        r matches Some(t) ==> strip_prefix_spec(s@, prefix@) == Some(t@),
        r is None ==> strip_prefix_spec(s@, prefix@) is None,
{
    let h = chars_of(s);
    let p = chars_of(prefix);
    if occurs_at_exec(&h, &p, 0) {
        Some(string_of_range(&h, p.len(), h.len()))
    } else {
        None
    }
}

/// Removes `suffix` from the end of `s`, if it is there.
pub fn strip_suffix(s: &str, suffix: &str) -> (r: Option<String>)
    ensures
        r matches Some(t) ==> strip_suffix_spec(s@, suffix@) == Some(t@),
        r is None ==> strip_suffix_spec(s@, suffix@) is None,
{
    let h = chars_of(s);
    let p = chars_of(suffix);
    if p.len() <= h.len() && occurs_at_exec(&h, &p, h.len() - p.len()) {
        Some(string_of_range(&h, 0, h.len() - p.len()))
    } else {
        None
    }
}

/// Replacing every non-overlapping occurrence of `from` in `s`, scanning
/// from the left, by `to` (as `str::replace` does for a non-empty pattern).
pub open spec fn replace_all(s: Seq<char>, from: Seq<char>, to: Seq<char>) -> Seq<char>
    decreases s.len(),
{
    if s.len() == 0 || from.len() == 0 {
        s
    } else if occurs_at(s, from, 0) {
        to + replace_all(s.subrange(from.len() as int, s.len() as int), from, to)
    } else {
        seq![s[0]] + replace_all(s.subrange(1, s.len() as int), from, to)
    }
}

/// Replaces every occurrence of the non-empty `from` in `s` by `to`.
pub fn replace(s: &str, from: &str, to: &str) -> (r: String)
    requires
        from@.len() > 0,
    ensures
        r@ == replace_all(s@, from@, to@),
{
    let h = chars_of(s);
    let f = chars_of(from);
    let n = h.len();
    let mut r = String::new();
    let mut i: usize = 0;
    assert(h@.subrange(0, n as int) =~= s@);
    while i < n
        invariant
            n == h@.len(),
            h@ == s@,
            f@ == from@,
            f@.len() > 0,
            i <= n,
            r@ + replace_all(h@.subrange(i as int, n as int), from@, to@) == replace_all(
                s@,
                from@,
                to@,
            ),
        decreases n - i,
    {
        let ghost rest = h@.subrange(i as int, n as int);
        if occurs_at_exec(&h, &f, i) {
            proof {
                assert(rest.subrange(0, f@.len() as int) =~= h@.subrange(i as int, i + f@.len()));
                assert(rest.subrange(f@.len() as int, rest.len() as int) =~= h@.subrange(
                    i + f@.len(),
                    n as int,
                ));
            }
            r.append(to);
            i = i + f.len();
            assert(r@ + replace_all(h@.subrange(i as int, n as int), from@, to@) =~= replace_all(
                s@,
                from@,
                to@,
            ));
        } else {
            proof {
                if occurs_at(rest, from@, 0) {
                    assert(rest.subrange(0, f@.len() as int) =~= h@.subrange(
                        i as int,
                        i + f@.len(),
                    ));
                }
                assert(rest.subrange(1, rest.len() as int) =~= h@.subrange(i + 1, n as int));
                assert(rest[0] == h@[i as int]);
            }
            push_char(&mut r, h[i]);
            i = i + 1;
            assert(r@ + replace_all(h@.subrange(i as int, n as int), from@, to@) =~= replace_all(
                s@,
                from@,
                to@,
            ));
        }
    }
    assert(h@.subrange(n as int, n as int) =~= Seq::<char>::empty());
    assert(r@ =~= replace_all(s@, from@, to@));
    r
}


/// A white-space character, as `char::is_whitespace` defines it (the
/// Unicode `White_Space` property).
pub open spec fn is_white_space(c: char) -> bool {
    let u = c as u32;
    (0x9 <= u <= 0xd) || u == 0x20 || u == 0x85 || u == 0xa0 || u == 0x1680 || (0x2000 <= u
        <= 0x200a) || u == 0x2028 || u == 0x2029 || u == 0x202f || u == 0x205f || u == 0x3000
}

fn is_white_space_exec(c: char) -> (b: bool)
    ensures
        b == is_white_space(c),
{
    let u = c as u32;
    (0x9 <= u && u <= 0xd) || u == 0x20 || u == 0x85 || u == 0xa0 || u == 0x1680 || (0x2000 <= u
        && u <= 0x200a) || u == 0x2028 || u == 0x2029 || u == 0x202f || u == 0x205f || u == 0x3000
}

/// `s` without its leading white space.
pub open spec fn trim_start_spec(s: Seq<char>) -> Seq<char>
    decreases s.len(),
{
    if s.len() > 0 && is_white_space(s[0]) {
        trim_start_spec(s.subrange(1, s.len() as int))
    } else {
        s
    }
}

/// `s` without its trailing white space.
pub open spec fn trim_end_spec(s: Seq<char>) -> Seq<char>
    decreases s.len(),
{
    if s.len() > 0 && is_white_space(s.last()) {
        trim_end_spec(s.drop_last())
    } else {
        s
    }
}

/// `s` without leading and trailing white space, as `str::trim` gives it.
pub open spec fn trim_spec(s: Seq<char>) -> Seq<char> {
    trim_end_spec(trim_start_spec(s))
}

/// Removes leading and trailing white space.
pub fn trim(s: &str) -> (r: String)
    ensures
        r@ == trim_spec(s@),
{
    let v = chars_of(s);
    let n = v.len();
    let mut i: usize = 0;
    assert(v@.subrange(0, n as int) =~= v@);
    while i < n && is_white_space_exec(v[i])
        invariant
            i <= n == v@.len(),
            trim_start_spec(v@) == trim_start_spec(v@.subrange(i as int, n as int)),
        decreases n - i,
    {
        assert(v@.subrange(i as int, n as int).subrange(1, (n - i) as int) =~= v@.subrange(
            i + 1,
            n as int,
        ));
        i = i + 1;
    }
    let mut j: usize = n;
    let ghost start = v@.subrange(i as int, n as int);
    assert(start.subrange(0, (j - i) as int) =~= start);
    while j > i && is_white_space_exec(v[j - 1])
        invariant
            i <= j <= n == v@.len(),
            start == v@.subrange(i as int, n as int),
            trim_end_spec(start) == trim_end_spec(v@.subrange(i as int, j as int)),
        decreases j - i,
    {
        assert(v@.subrange(i as int, j as int).drop_last() =~= v@.subrange(i as int, j - 1));
        j = j - 1;
    }
    assert(trim_start_spec(v@) == start) by {
        if i < n {
            assert(start.len() > 0 && start[0] == v@[i as int]);
        }
    }
    assert(trim_end_spec(v@.subrange(i as int, j as int)) == v@.subrange(i as int, j as int)) by {
        if j > i {
            assert(v@.subrange(i as int, j as int).last() == v@[j - 1]);
        }
    }
    string_of_range(&v, i, j)
}

/// The lines of `s`, as `str::lines` gives them: split after each `\n`,
/// without the `\n` and without a `\r` just before it; a final line
/// without `\n` counts, an empty text has no line.
pub open spec fn lines_spec(s: Seq<char>) -> Seq<Seq<char>>
    decreases s.len(),
{
    if s.len() == 0 {
        Seq::empty()
    } else {
        let rest = lines_spec(s.drop_last());
        if s.last() == '\n' {
            let line = current_line(s.drop_last());
            rest_without_last(rest, s.drop_last()).push(strip_cr(line))
        } else {
            rest_without_last(rest, s.drop_last()).push(current_line(s))
        }
    }
}

/// The text after the last `\n` of `s` (all of `s` when it has none).
pub open spec fn current_line(s: Seq<char>) -> Seq<char>
    decreases s.len(),
{
    if s.len() == 0 || s.last() == '\n' {
        Seq::empty()
    } else {
        current_line(s.drop_last()).push(s.last())
    }
}

/// The lines of a text `p` whose last line is still open (does not end
/// with `\n`) lose that last line; otherwise they stay as they are.
pub open spec fn rest_without_last(lines: Seq<Seq<char>>, p: Seq<char>) -> Seq<Seq<char>> {
    if p.len() > 0 && p.last() != '\n' {
        lines.drop_last()
    } else {
        lines
    }
}

pub open spec fn strip_cr(line: Seq<char>) -> Seq<char> {
    if line.len() > 0 && line.last() == '\r' {
        line.drop_last()
    } else {
        line
    }
}


/// The lines of `s` (see `lines_spec`).
pub fn lines(s: &str) -> (r: Vec<String>)
    ensures
        texts_of(r@) == lines_spec(s@),
{
    let v = chars_of(s);
    let n = v.len();
    let mut done: Vec<String> = Vec::new();
    let mut cur: Vec<char> = Vec::new();
    let mut i: usize = 0;
    while i < n
        invariant
            i <= n == v@.len(),
            v@ == s@,
            cur@ == current_line(v@.take(i as int)),
            lines_spec(v@.take(i as int)) == if i > 0 && v@[i - 1] != '\n' {
                texts_of(done@).push(cur@)
            } else {
                texts_of(done@)
            },
        decreases n - i,
    {
        let ghost p = v@.take(i as int);
        let ghost q = v@.take(i + 1);
        assert(q.drop_last() =~= p);
        assert(q.last() == v@[i as int]);
        let c = v[i];
        if c == '\n' {
            let mut line = cur.clone();
            if line.len() > 0 && line[line.len() - 1] == '\r' {
                line.pop();
            }
            assert(line@ == strip_cr(cur@)) by {
                if cur@.len() > 0 && cur@.last() == '\r' {
                    assert(line@ =~= cur@.drop_last());
                }
            }
            done.push(string_of_chars(&line));
            cur = Vec::new();
            proof {
                assert(current_line(q) =~= cur@);
                if i > 0 && v@[i - 1] != '\n' {
                    assert(p.last() == v@[i - 1]);
                }
                if i > 0 && v@[i - 1] == '\n' {
                    assert(p.last() == v@[i - 1]);
                    assert(current_line(p) =~= Seq::<char>::empty());
                }
                if i == 0 {
                    assert(current_line(p) =~= Seq::<char>::empty());
                }
                assert(texts_of(done@) =~= rest_without_last(lines_spec(p), p).push(
                    strip_cr(current_line(p)),
                ));
            }
        } else {
            cur.push(c);
            proof {
                if i > 0 {
                    assert(p.last() == v@[i - 1]);
                }
                assert(lines_spec(q) =~= texts_of(done@).push(cur@));
            }
        }
        i = i + 1;
    }
    assert(v@.take(n as int) =~= s@);
    if n > 0 && v[n - 1] != '\n' {
        done.push(string_of_chars(&cur));
        assert(texts_of(done@) =~= lines_spec(s@));
    } else {
        assert(texts_of(done@) =~= lines_spec(s@));
    }
    done
}

/// An ASCII decimal digit.
pub open spec fn is_digit(c: char) -> bool {
    48 <= (c as u32) <= 57
}

/// Every character is an ASCII decimal digit.
pub open spec fn all_digits(s: Seq<char>) -> bool {
    forall|i: int| 0 <= i < s.len() ==> is_digit(#[trigger] s[i])
}

/// The value of a run of decimal digits.
pub open spec fn digits_value(s: Seq<char>) -> nat
    decreases s.len(),
{
    if s.len() == 0 {
        0
    } else {
        digits_value(s.drop_last()) * 10 + ((s.last() as u32) - 48) as nat
    }
}

/// What `i64::from_str` gives for a text: an optional `+` or `-`, then one
/// or more ASCII digits, whose value must fit in an `i64`.
pub open spec fn parse_i64_spec(s: Seq<char>) -> Option<i64> {
    let neg = s.len() > 0 && s[0] == '-';
    let body = if s.len() > 0 && (s[0] == '-' || s[0] == '+') {
        s.subrange(1, s.len() as int)
    } else {
        s
    };
    if body.len() == 0 || !all_digits(body) {
        None
    } else {
        let v: int = if neg {
            -(digits_value(body) as int)
        } else {
            digits_value(body) as int
        };
        if i64::MIN <= v <= i64::MAX {
            Some(v as i64)
        } else {
            None
        }
    }
}

proof fn lemma_digits_value_grows(s: Seq<char>, c: char)
    requires
        is_digit(c),
    ensures
        digits_value(s.push(c)) >= digits_value(s),
        digits_value(s.push(c)) == digits_value(s) * 10 + ((c as u32) - 48) as nat,
{
    assert(s.push(c).drop_last() =~= s);
}

/// Parses a decimal integer, as `text.parse::<i64>().ok()` does.
pub fn parse_i64(text: &str) -> (r: Option<i64>)
    ensures
        r == parse_i64_spec(text@),
{
    let v = chars_of(text);
    let n = v.len();
    let neg = n > 0 && v[0] == '-';
    let start: usize = if n > 0 && (v[0] == '-' || v[0] == '+') {
        1
    } else {
        0
    };
    let ghost body = if text@.len() > 0 && (text@[0] == '-' || text@[0] == '+') {
        text@.subrange(1, text@.len() as int)
    } else {
        text@
    };
    assert(body =~= v@.subrange(start as int, n as int));
    if start == n {
        return None;
    }
    let limit: u64 = 0x8000_0000_0000_0000;
    let mut acc: u64 = 0;
    let mut big = false;
    let mut i = start;
    assert(v@.subrange(start as int, start as int) =~= Seq::<char>::empty());
    while i < n
        invariant
            start <= i <= n == v@.len(),
            v@ == text@,
            limit == 0x8000_0000_0000_0000u64,
            body == (if text@.len() > 0 && (text@[0] == '-' || text@[0] == '+') {
                text@.subrange(1, text@.len() as int)
            } else {
                text@
            }),
            body == v@.subrange(start as int, n as int),
            forall|k: int| start <= k < i ==> is_digit(#[trigger] v@[k]),
            !big ==> acc == digits_value(v@.subrange(start as int, i as int)) && acc <= limit,
            big ==> digits_value(v@.subrange(start as int, i as int)) > limit,
        decreases n - i,
    {
        let c = v[i];
        let u = c as u32;
        if !(48 <= u && u <= 57) {
            assert(body[i - start] == c);
            assert(!all_digits(body));
            return None;
        }
        let ghost p = v@.subrange(start as int, i as int);
        assert(v@.subrange(start as int, i + 1) =~= p.push(c));
        proof {
            lemma_digits_value_grows(p, c);
        }
        let d = (u - 48) as u64;
        if !big {
            if acc > (limit - d) / 10 {
                big = true;
                assert(acc * 10 + d > limit) by (nonlinear_arith)
                    requires
                        acc > (limit - d) / 10,
                        d <= 9,
                ;
            } else {
                assert(acc * 10 + d <= limit) by (nonlinear_arith)
                    requires
                        acc <= (limit - d) / 10,
                        d <= 9,
                ;
                acc = acc * 10 + d;
            }
        }
        i = i + 1;
    }
    assert(all_digits(body)) by {
        assert forall|k: int| 0 <= k < body.len() implies is_digit(#[trigger] body[k]) by {
            assert(body[k] == v@[start + k]);
        }
    }
    assert(v@.subrange(start as int, n as int) == body);
    if big {
        None
    } else if neg {
        Some((0i128 - acc as i128) as i64)
    } else if acc < limit {
        Some(acc as i64)
    } else {
        None
    }
}

} // verus!

//! Text primitives: whitespace, trimming, splitting, joining and decimal
//! numbers, each on the characters of a string.

use vstd::prelude::*;

verus! {

/// `String::push` of std appends the given character to the end of the string.
pub assume_specification[ String::push ](s: &mut String, c: char)
    ensures
        final(s)@ == old(s)@.push(c),
;

/// The characters of a list of strings.
pub open spec fn texts(v: Seq<String>) -> Seq<Seq<char>> {
    Seq::new(v.len(), |i: int| v[i]@)
}

/// The characters of an optional string.
pub open spec fn opt_text(o: Option<String>) -> Option<Seq<char>> {
    match o {
        Some(s) => Some(s@),
        None => None,
    }
}

/// The characters of an optional borrowed string.
pub open spec fn opt_str(o: Option<&str>) -> Option<Seq<char>> {
    match o {
        Some(s) => Some(s@),
        None => None,
    }
}

/// The Unicode `White_Space` property.
pub open spec fn is_space(c: char) -> bool {
    let n = c as u32;
    ||| 0x09 <= n <= 0x0d
    ||| n == 0x20
    ||| n == 0x85
    ||| n == 0xa0
    ||| n == 0x1680
    ||| 0x2000 <= n <= 0x200a
    ||| n == 0x2028
    ||| n == 0x2029
    ||| n == 0x202f
    ||| n == 0x205f
    ||| n == 0x3000
}

/// The Unicode control characters (general category `Cc`).
pub open spec fn is_control(c: char) -> bool {
    let n = c as u32;
    n <= 0x1f || 0x7f <= n <= 0x9f
}

/// `s` without its leading white space.
pub open spec fn trimmed_start(s: Seq<char>) -> Seq<char>
    decreases s.len(),
{
    if s.len() > 0 && is_space(s[0]) {
        trimmed_start(s.skip(1))
    } else {
        s
    }
}

/// `s` without its trailing white space.
pub open spec fn trimmed_end(s: Seq<char>) -> Seq<char>
    decreases s.len(),
{
    if s.len() > 0 && is_space(s[s.len() - 1]) {
        trimmed_end(s.take(s.len() - 1))
    } else {
        s
    }
}

/// `s` without white space at either end.
pub open spec fn trimmed(s: Seq<char>) -> Seq<char> {
    trimmed_end(trimmed_start(s))
}

/// What separates the pieces of a split text.
#[derive(Clone, Copy, PartialEq, Eq, Debug, Structural)]
pub enum Separator {
    /// Exactly this character.
    Char(char),
    /// A line feed or a carriage return.
    LineBreak,
    /// Any white space.
    Space,
    /// A comma or any white space.
    List,
}

pub open spec fn separates(sep: Separator, c: char) -> bool {
    match sep {
        Separator::Char(x) => c == x,
        Separator::LineBreak => c == '\n' || c == '\r',
        Separator::Space => is_space(c),
        Separator::List => c == ',' || is_space(c),
    }
}

/// The pieces of `s` between separators: one more than there are separators.
pub open spec fn pieces(s: Seq<char>, sep: Separator) -> Seq<Seq<char>>
    decreases s.len(),
{
    if s.len() == 0 {
        seq![Seq::<char>::empty()]
    } else {
        let before = pieces(s.take(s.len() - 1), sep);
        let c = s[s.len() - 1];
        if separates(sep, c) {
            before.push(Seq::<char>::empty())
        } else {
            before.take(before.len() - 1).push(before[before.len() - 1].push(c))
        }
    }
}

/// The elements of `parts` that are not empty, in order.
pub open spec fn nonempty(parts: Seq<Seq<char>>) -> Seq<Seq<char>>
    decreases parts.len(),
{
    if parts.len() == 0 {
        Seq::<Seq<char>>::empty()
    } else {
        let before = nonempty(parts.take(parts.len() - 1));
        let last = parts[parts.len() - 1];
        if last.len() == 0 {
            before
        } else {
            before.push(last)
        }
    }
}

/// The maximal runs of characters of `s` that do not separate, in order.
pub open spec fn runs(s: Seq<char>, sep: Separator) -> Seq<Seq<char>>
    decreases s.len(),
{
    if s.len() == 0 {
        Seq::<Seq<char>>::empty()
    } else {
        let n = s.len() - 1;
        let before = runs(s.take(n), sep);
        if separates(sep, s[n]) {
            before
        } else if n > 0 && !separates(sep, s[n - 1]) {
            before.take(before.len() - 1).push(before[before.len() - 1].push(s[n]))
        } else {
            before.push(seq![s[n]])
        }
    }
}

/// Every element of `parts` trimmed.
pub open spec fn trimmed_each(parts: Seq<Seq<char>>) -> Seq<Seq<char>> {
    Seq::new(parts.len(), |i: int| trimmed(parts[i]))
}

/// `parts` one after the other, with `sep` between neighbours.
pub open spec fn joined(parts: Seq<Seq<char>>, sep: Seq<char>) -> Seq<char>
    decreases parts.len(),
{
    if parts.len() == 0 {
        Seq::<char>::empty()
    } else if parts.len() == 1 {
        parts[0]
    } else {
        joined(parts.take(parts.len() - 1), sep) + sep + parts[parts.len() - 1]
    }
}

/// `n` copies of `s`, one after the other.
pub open spec fn repeated(s: Seq<char>, n: nat) -> Seq<char>
    decreases n,
{
    if n == 0 {
        Seq::<char>::empty()
    } else {
        repeated(s, (n - 1) as nat) + s
    }
}

/// The decimal digit `n`, for `n` under ten.
pub open spec fn digit(n: nat) -> char {
    (48 + n) as char
}

/// `n` in decimal, without leading zeros.
pub open spec fn digits(n: nat) -> Seq<char>
    decreases n,
{
    if n < 10 {
        seq![digit(n)]
    } else {
        digits(n / 10).push(digit(n % 10))
    }
}

pub open spec fn ascii_lower(c: char) -> char {
    if 'A' <= c <= 'Z' {
        ((c as u32) + 32) as char
    } else {
        c
    }
}

/// `s` with its ASCII letters in lower case.
pub open spec fn lowered(s: Seq<char>) -> Seq<char> {
    Seq::new(s.len(), |i: int| ascii_lower(s[i]))
}

/// `needle` stands in `s` at offset `at`.
pub open spec fn stands_at(s: Seq<char>, needle: Seq<char>, at: int) -> bool {
    0 <= at && at + needle.len() <= s.len() && s.subrange(at, at + needle.len()) == needle
}

pub open spec fn holds_text(s: Seq<char>, needle: Seq<char>) -> bool {
    exists|at: int| stands_at(s, needle, at)
}

pub fn is_whitespace(c: char) -> (b: bool)
    ensures
        b == is_space(c),
{
    let n: u32 = c as u32;
    (0x09 <= n && n <= 0x0d) || n == 0x20 || n == 0x85 || n == 0xa0 || n == 0x1680 || (0x2000 <= n
        && n <= 0x200a) || n == 0x2028 || n == 0x2029 || n == 0x202f || n == 0x205f || n == 0x3000
}

pub fn is_control_char(c: char) -> (b: bool)
    ensures
        b == is_control(c),
{
    let n: u32 = c as u32;
    n <= 0x1f || (0x7f <= n && n <= 0x9f)
}

pub fn chars_of(s: &str) -> (v: Vec<char>)
    ensures
        v@ == s@,
{
    let mut v: Vec<char> = Vec::new();
    for c in it: s.chars()
        invariant
            it.seq() == s@,
            v@ == s@.take(it.index()),
    {
        assert(s@.take(it.index() + 1) =~= s@.take(it.index()).push(c));
        v.push(c);
    }
    assert(s@.take(s@.len() as int) =~= s@);
    v
}

/// The characters of `v` from `start` up to `end`, as a string.
pub fn string_from(v: &Vec<char>, start: usize, end: usize) -> (s: String)
    requires
        start <= end <= v@.len(),
    ensures
        s@ == v@.subrange(start as int, end as int),
{
    let mut s = String::new();
    let mut i: usize = start;
    while i < end
        invariant
            start <= i <= end <= v@.len(),
            s@ == v@.subrange(start as int, i as int),
        decreases end - i,
    {
        assert(v@.subrange(start as int, i + 1) =~= v@.subrange(start as int, i as int).push(
            v@[i as int],
        ));
        s.push(v[i]);
        i += 1;
    }
    s
}

/// Whether two texts have the same characters.
pub fn same(a: &str, b: &str) -> (r: bool)
    ensures
        r == (a@ == b@),
{
    let x = chars_of(a);
    let y = chars_of(b);
    if x.len() != y.len() {
        return false;
    }
    let mut i: usize = 0;
    while i < x.len()
        invariant
            x@ == a@,
            y@ == b@,
            i <= x@.len(),
            x@.len() == y@.len(),
            forall|j: int| 0 <= j < i ==> x@[j] == y@[j],
        decreases x@.len() - i,
    {
        if x[i] != y[i] {
            return false;
        }
        i += 1;
    }
    assert(a@ =~= b@);
    true
}

pub proof fn lemma_trimmed_start_skips(s: Seq<char>, i: int)
    requires
        0 <= i <= s.len(),
        forall|j: int| 0 <= j < i ==> is_space(s[j]),
    ensures
        trimmed_start(s) == trimmed_start(s.skip(i)),
    decreases i,
{
    if i == 0 {
        assert(s.skip(0) =~= s);
    } else {
        lemma_trimmed_start_skips(s.skip(1), i - 1);
        assert(s.skip(1).skip(i - 1) =~= s.skip(i));
    }
}

pub proof fn lemma_trimmed_end_drops(s: Seq<char>, i: int)
    requires
        0 <= i <= s.len(),
        forall|j: int| i <= j < s.len() ==> is_space(s[j]),
    ensures
        trimmed_end(s) == trimmed_end(s.take(i)),
    decreases s.len() - i,
{
    if i == s.len() {
        assert(s.take(i) =~= s);
    } else {
        let t = s.take(s.len() - 1);
        lemma_trimmed_end_drops(t, i);
        assert(t.take(i) =~= s.take(i));
    }
}

pub fn trim_chars(v: &Vec<char>) -> (s: String)
    ensures
        s@ == trimmed(v@),
{
    let mut i: usize = 0;
    while i < v.len() && is_whitespace(v[i])
        invariant
            i <= v@.len(),
            forall|j: int| 0 <= j < i ==> is_space(v@[j]),
        decreases v@.len() - i,
    {
        i += 1;
    }
    let mut k: usize = v.len();
    while k > i && is_whitespace(v[k - 1])
        invariant
            i <= k <= v@.len(),
            forall|j: int| k <= j < v@.len() ==> is_space(v@[j]),
        decreases k,
    {
        k -= 1;
    }
    proof {
        lemma_trimmed_start_skips(v@, i as int);
        let t = v@.skip(i as int);
        assert(trimmed_start(t) == t);
        lemma_trimmed_end_drops(t, k - i);
        assert(t.take(k - i) =~= v@.subrange(i as int, k as int));
    }
    string_from(v, i, k)
}

/// `s` without white space at either end.
pub fn trim(s: &str) -> (r: String)
    ensures
        r@ == trimmed(s@),
{
    let v = chars_of(s);
    trim_chars(&v)
}

pub fn is_separator(sep: Separator, c: char) -> (b: bool)
    ensures
        b == separates(sep, c),
{
    match sep {
        Separator::Char(x) => c == x,
        Separator::LineBreak => c == '\n' || c == '\r',
        Separator::Space => is_whitespace(c),
        Separator::List => c == ',' || is_whitespace(c),
    }
}

/// Splits `s` at every separator.
pub fn split(s: &str, sep: Separator) -> (parts: Vec<String>)
    ensures
        texts(parts@) == pieces(s@, sep),
        parts@.len() > 0,
{
    let v = chars_of(s);
    let mut parts: Vec<String> = Vec::new();
    let mut current = String::new();
    let mut i: usize = 0;
    assert(v@.take(0) =~= Seq::<char>::empty());
    assert(texts(parts@).push(current@) =~= pieces(v@.take(0), sep));
    while i < v.len()
        invariant
            i <= v@.len(),
            texts(parts@).push(current@) == pieces(v@.take(i as int), sep),
        decreases v@.len() - i,
    {
        let ghost parts0 = parts@;
        let ghost current0 = current@;
        let ghost t = v@.take(i + 1);
        assert(t.take(t.len() - 1) =~= v@.take(i as int));
        if is_separator(sep, v[i]) {
            parts.push(current);
            current = String::new();
            assert(texts(parts@) =~= texts(parts0).push(current0));
        } else {
            current.push(v[i]);
            assert(texts(parts0).push(current0).take(parts0.len() as int) =~= texts(parts0));
        }
        i += 1;
    }
    let ghost parts0 = parts@;
    let ghost current0 = current@;
    parts.push(current);
    assert(texts(parts@) =~= texts(parts0).push(current0));
    assert(v@.take(v@.len() as int) =~= s@);
    parts
}

/// The elements of `parts` that are not empty, in order.
pub fn keep_nonempty(parts: &Vec<String>) -> (out: Vec<String>)
    ensures
        texts(out@) == nonempty(texts(parts@)),
{
    let mut out: Vec<String> = Vec::new();
    let mut i: usize = 0;
    assert(texts(out@) =~= nonempty(texts(parts@).take(0)));
    while i < parts.len()
        invariant
            i <= parts@.len(),
            texts(out@) == nonempty(texts(parts@).take(i as int)),
        decreases parts@.len() - i,
    {
        let ghost t = texts(parts@).take(i + 1);
        assert(t.take(t.len() - 1) =~= texts(parts@).take(i as int));
        let ghost out0 = out@;
        if !parts[i].as_str().is_empty() {
            out.push(parts[i].clone());
            assert(texts(out@) =~= texts(out0).push(parts@[i as int]@));
        }
        i += 1;
    }
    assert(texts(parts@).take(parts@.len() as int) =~= texts(parts@));
    out
}

/// Every element of `parts` trimmed.
pub fn trim_each(parts: &Vec<String>) -> (out: Vec<String>)
    ensures
        texts(out@) == trimmed_each(texts(parts@)),
{
    let mut out: Vec<String> = Vec::new();
    let mut i: usize = 0;
    while i < parts.len()
        invariant
            i <= parts@.len(),
            out@.len() == i,
            forall|j: int| 0 <= j < i ==> #[trigger] out@[j]@ == trimmed(parts@[j]@),
        decreases parts@.len() - i,
    {
        out.push(trim(parts[i].as_str()));
        i += 1;
    }
    assert(texts(out@) =~= trimmed_each(texts(parts@)));
    out
}

/// `parts` one after the other, with `sep` between neighbours.
pub fn join(parts: &Vec<String>, sep: &str) -> (s: String)
    ensures
        s@ == joined(texts(parts@), sep@),
{
    let mut s = String::new();
    let mut i: usize = 0;
    while i < parts.len()
        invariant
            i <= parts@.len(),
            s@ == joined(texts(parts@).take(i as int), sep@),
        decreases parts@.len() - i,
    {
        let ghost t = texts(parts@).take(i + 1);
        assert(t.take(t.len() - 1) =~= texts(parts@).take(i as int));
        if i > 0 {
            s.append(sep);
        }
        s.append(parts[i].as_str());
        if i == 0 {
            assert(s@ =~= parts@[0]@);
        }
        i += 1;
    }
    assert(texts(parts@).take(parts@.len() as int) =~= texts(parts@));
    s
}

/// `n` copies of `s`.
pub fn repeat(s: &str, n: usize) -> (r: String)
    ensures
        r@ == repeated(s@, n as nat),
{
    let mut r = String::new();
    let mut i: usize = 0;
    while i < n
        invariant
            i <= n,
            r@ == repeated(s@, i as nat),
        decreases n - i,
    {
        r.append(s);
        i += 1;
    }
    r
}

/// `n` in decimal.
pub fn decimal(n: u64) -> (s: String)
    ensures
        s@ == digits(n as nat),
    decreases n,
{
    let d: u8 = (n % 10) as u8;
    let mut s = if n < 10 {
        String::new()
    } else {
        decimal(n / 10)
    };
    s.push((48u8 + d) as char);
    if n < 10 {
        assert(s@ =~= digits(n as nat));
    }
    s
}

/// `s` with its ASCII letters in lower case.
pub fn to_lower(s: &str) -> (r: String)
    ensures
        r@ == lowered(s@),
{
    let v = chars_of(s);
    let mut r = String::new();
    let mut i: usize = 0;
    while i < v.len()
        invariant
            v@ == s@,
            i <= v@.len(),
            r@ == lowered(v@.take(i as int)),
        decreases v@.len() - i,
    {
        let c = v[i];
        let low: char = if 'A' <= c && c <= 'Z' {
            ((c as u8) + 32u8) as char
        } else {
            c
        };
        r.push(low);
        i += 1;
        assert(r@ =~= lowered(v@.take(i as int)));
    }
    assert(v@.take(v@.len() as int) =~= s@);
    r
}

/// Whether `needle` stands somewhere in `s`.
pub fn contains(s: &str, needle: &str) -> (r: bool)
    ensures
        r == holds_text(s@, needle@),
{
    let v = chars_of(s);
    let w = chars_of(needle);
    let n: usize = v.len();
    if w.len() > n {
        return false;
    }
    let mut at: usize = 0;
    while at <= n - w.len()
        invariant
            v@ == s@,
            w@ == needle@,
            n == v@.len(),
            w@.len() <= v@.len(),
            at <= v@.len() - w@.len() + 1,
            forall|k: int| 0 <= k < at ==> !stands_at(s@, needle@, k),
        decreases v@.len() - w@.len() + 1 - at,
    {
        let mut j: usize = 0;
        while j < w.len() && v[at + j] == w[j]
            invariant
                n == v@.len(),
                w@.len() <= n,
                at <= n - w@.len(),
                j <= w@.len(),
                forall|k: int| 0 <= k < j ==> #[trigger] w@[k] == v@[at + k],
            decreases w@.len() - j,
        {
            j += 1;
        }
        if j == w.len() {
            assert(s@.subrange(at as int, at + needle@.len()) =~= needle@);
            assert(stands_at(s@, needle@, at as int));
            return true;
        }
        assert(s@.subrange(at as int, at + needle@.len())[j as int] != needle@[j as int]);
        at += 1;
    }
    false
}

pub fn cat2(a: &str, b: &str) -> (r: String)
    ensures
        r@ == a@ + b@,
{
    let mut r = a.to_owned();
    r.append(b);
    r
}

pub fn cat3(a: &str, b: &str, c: &str) -> (r: String)
    ensures
        r@ == a@ + b@ + c@,
{
    let mut r = a.to_owned();
    r.append(b);
    r.append(c);
    r
}

pub fn cat4(a: &str, b: &str, c: &str, d: &str) -> (r: String)
    ensures
        r@ == a@ + b@ + c@ + d@,
{
    let mut r = cat3(a, b, c);
    r.append(d);
    r
}

pub fn cat5(a: &str, b: &str, c: &str, d: &str, e: &str) -> (r: String)
    ensures
        r@ == a@ + b@ + c@ + d@ + e@,
{
    let mut r = cat4(a, b, c, d);
    r.append(e);
    r
}

/// An owned copy of an optional text.
pub fn owned(o: Option<&str>) -> (r: Option<String>)
    ensures
        opt_text(r) == opt_str(o),
{
    match o {
        Some(s) => Some(s.to_owned()),
        None => None,
    }
}

/// Joining the pieces of a text with the character it was split at gives the
/// text back.
pub proof fn law_join_undoes_split(s: Seq<char>, c: char)
    ensures
        joined(pieces(s, Separator::Char(c)), seq![c]) == s,
    decreases s.len(),
{
    let sep = Separator::Char(c);
    if s.len() == 0 {
        assert(joined(pieces(s, sep), seq![c]) =~= s);
    } else {
        let t = s.take(s.len() - 1);
        let before = pieces(t, sep);
        let last = s[s.len() - 1];
        law_join_undoes_split(t, c);
        lemma_pieces_nonempty(t, sep);
        let all = pieces(s, sep);
        if last == c {
            assert(all.take(all.len() - 1) =~= before);
            assert(joined(all, seq![c]) =~= s);
        } else {
            let b = before[before.len() - 1];
            assert(all.take(all.len() - 1) =~= before.take(before.len() - 1));
            assert(all[all.len() - 1] == b.push(last));
            if before.len() > 1 {
                let head = joined(before.take(before.len() - 1), seq![c]) + seq![c];
                assert(joined(before, seq![c]) == head + b);
                assert(joined(all, seq![c]) == head + b.push(last));
                assert(head + b.push(last) =~= (head + b).push(last));
            }
            assert(t.push(last) =~= s);
        }
    }
}

pub proof fn lemma_pieces_nonempty(s: Seq<char>, sep: Separator)
    ensures
        pieces(s, sep).len() > 0,
    decreases s.len(),
{
    if s.len() > 0 {
        lemma_pieces_nonempty(s.take(s.len() - 1), sep);
    }
}

/// What follows without a separator lengthens the last piece.
pub proof fn lemma_pieces_extend(s: Seq<char>, t: Seq<char>, sep: Separator)
    requires
        forall|i: int| 0 <= i < t.len() ==> !separates(sep, #[trigger] t[i]),
    ensures
        ({
            let before = pieces(s, sep);
            pieces(s + t, sep) == before.update(before.len() - 1, before[before.len() - 1] + t)
        }),
    decreases t.len(),
{
    let before = pieces(s, sep);
    lemma_pieces_nonempty(s, sep);
    if t.len() == 0 {
        assert(s + t =~= s);
        assert(before[before.len() - 1] + t =~= before[before.len() - 1]);
        assert(before.update(before.len() - 1, before[before.len() - 1]) =~= before);
    } else {
        let u = t.take(t.len() - 1);
        lemma_pieces_extend(s, u, sep);
        assert((s + t).take((s + t).len() - 1) =~= s + u);
        assert(u.push(t[t.len() - 1]) =~= t);
        assert((before[before.len() - 1] + u).push(t[t.len() - 1]) =~= before[before.len() - 1]
            + t);
        assert(pieces(s + t, sep) =~= before.update(
            before.len() - 1,
            before[before.len() - 1] + t,
        ));
    }
}

/// No piece of a split text holds a separator.
pub proof fn law_pieces_hold_no_separator(s: Seq<char>, sep: Separator, i: int, j: int)
    requires
        0 <= i < pieces(s, sep).len(),
        0 <= j < pieces(s, sep)[i].len(),
    ensures
        !separates(sep, pieces(s, sep)[i][j]),
    decreases s.len(),
{
    if s.len() > 0 {
        let t = s.take(s.len() - 1);
        let before = pieces(t, sep);
        let c = s[s.len() - 1];
        lemma_pieces_nonempty(t, sep);
        if i < before.len() && j < before[i].len() {
            law_pieces_hold_no_separator(t, sep, i, j);
        }
    }
}

/// The pieces of a split text that are not empty are its maximal runs of
/// characters that do not separate; each of them is such a run.
pub proof fn law_nonempty_pieces_are_runs(s: Seq<char>, sep: Separator)
    ensures
        nonempty(pieces(s, sep)) == runs(s, sep),
        forall|i: int|
            0 <= i < runs(s, sep).len() ==> (#[trigger] runs(s, sep)[i]).len() > 0 && forall|j: int|
                0 <= j < runs(s, sep)[i].len() ==> !separates(sep, #[trigger] runs(s, sep)[i][j]),
    decreases s.len(),
{
    if s.len() == 0 {
        let blank = seq![Seq::<char>::empty()];
        assert(nonempty(blank) == nonempty(blank.take(0)));
        assert(blank.take(0).len() == 0);
    } else {
        let n = s.len() - 1;
        let t = s.take(n);
        let c = s[n];
        let before = pieces(t, sep);
        let k = before.len() - 1;
        lemma_pieces_nonempty(t, sep);
        law_nonempty_pieces_are_runs(t, sep);
        if separates(sep, c) {
            let after = before.push(Seq::<char>::empty());
            assert(after.take(after.len() - 1) =~= before);
        } else {
            let after = before.take(k).push(before[k].push(c));
            assert(after.take(after.len() - 1) =~= before.take(k));
            if n > 0 {
                assert(t[n - 1] == s[n - 1]);
            }
            if before[k].len() > 0 {
                let old_runs = runs(t, sep);
                assert(old_runs.take(old_runs.len() - 1) =~= nonempty(before.take(k)));
                assert(old_runs[old_runs.len() - 1] == before[k]);
            } else {
                assert(before[k].push(c) =~= seq![c]);
            }
        }
    }
}

/// A trimmed text neither begins nor ends with white space, and trimming it
/// again changes nothing.
pub proof fn law_trimmed_has_no_outer_space(s: Seq<char>)
    ensures
        trimmed(s).len() > 0 ==> !is_space(trimmed(s)[0]) && !is_space(
            trimmed(s)[trimmed(s).len() - 1],
        ),
        trimmed(trimmed(s)) == trimmed(s),
{
    lemma_trimmed_start_head(s);
    lemma_trimmed_end_last(trimmed_start(s));
}

proof fn lemma_trimmed_start_head(s: Seq<char>)
    ensures
        trimmed_start(s).len() > 0 ==> !is_space(trimmed_start(s)[0]),
    decreases s.len(),
{
    if s.len() > 0 && is_space(s[0]) {
        lemma_trimmed_start_head(s.skip(1));
    }
}

proof fn lemma_trimmed_end_last(s: Seq<char>)
    ensures
        trimmed_end(s).len() > 0 ==> !is_space(trimmed_end(s)[trimmed_end(s).len() - 1])
            && trimmed_end(s)[0] == s[0],
        trimmed_end(s).len() <= s.len(),
    decreases s.len(),
{
    if s.len() > 0 && is_space(s[s.len() - 1]) {
        lemma_trimmed_end_last(s.take(s.len() - 1));
    }
}

/// What is trimmed off a text is white space at its ends, and nothing else: between
/// two runs of white space lies the trimmed text, which is empty exactly where all
/// is white space.
pub proof fn law_trimmed_is_what_lies_between(s: Seq<char>)
    ensures
        exists|a: int, b: int|
            0 <= a <= b <= s.len() && trimmed(s) == #[trigger] s.subrange(a, b) && (forall|i: int|
                0 <= i < a ==> is_space(#[trigger] s[i])) && (forall|i: int|
                b <= i < s.len() ==> is_space(#[trigger] s[i])),
        trimmed(s).len() > 0 <==> exists|i: int| 0 <= i < s.len() && !is_space(#[trigger] s[i]),
{
    let a = lemma_start_is_skipped(s);
    let t = s.skip(a);
    let k = lemma_end_is_dropped(t);
    let b = a + k;
    law_trimmed_has_no_outer_space(s);
    assert(trimmed(s) =~= s.subrange(a, b));
    assert forall|i: int| b <= i < s.len() implies is_space(#[trigger] s[i]) by {
        assert(t[i - a] == s[i]);
    }
    if trimmed(s).len() > 0 {
        assert(!is_space(s[a]));
    } else if exists|i: int| 0 <= i < s.len() && !is_space(#[trigger] s[i]) {
        let i = choose|i: int| 0 <= i < s.len() && !is_space(#[trigger] s[i]);
        assert(i < a || b <= i);
    }
}

proof fn lemma_start_is_skipped(s: Seq<char>) -> (a: int)
    ensures
        0 <= a <= s.len(),
        trimmed_start(s) == s.skip(a),
        forall|i: int| 0 <= i < a ==> is_space(#[trigger] s[i]),
    decreases s.len(),
{
    if s.len() > 0 && is_space(s[0]) {
        let rest = s.skip(1);
        let k = lemma_start_is_skipped(rest);
        assert(rest.skip(k) =~= s.skip(k + 1));
        assert forall|i: int| 0 <= i < k + 1 implies is_space(#[trigger] s[i]) by {
            if i > 0 {
                assert(s[i] == rest[i - 1]);
            }
        }
        k + 1
    } else {
        assert(s.skip(0) =~= s);
        0
    }
}

proof fn lemma_end_is_dropped(s: Seq<char>) -> (b: int)
    ensures
        0 <= b <= s.len(),
        trimmed_end(s) == s.take(b),
        forall|i: int| b <= i < s.len() ==> is_space(#[trigger] s[i]),
    decreases s.len(),
{
    if s.len() > 0 && is_space(s[s.len() - 1]) {
        let rest = s.take(s.len() - 1);
        let b = lemma_end_is_dropped(rest);
        assert(rest.take(b) =~= s.take(b));
        assert forall|i: int| b <= i < s.len() implies is_space(#[trigger] s[i]) by {
            if i < s.len() - 1 {
                assert(s[i] == rest[i]);
            }
        }
        b
    } else {
        assert(s.take(s.len() as int) =~= s);
        s.len() as int
    }
}

/// A text stands in what it was put between.
pub proof fn law_text_is_held(a: Seq<char>, needle: Seq<char>, b: Seq<char>)
    ensures
        holds_text(a + needle + b, needle),
        holds_text(a + needle, needle),
        holds_text(needle + b, needle),
{
    let at = a.len() as int;
    let k = needle.len() as int;
    assert((a + needle + b).subrange(at, at + k) =~= needle);
    assert(stands_at(a + needle + b, needle, at));
    assert((a + needle).subrange(at, at + k) =~= needle);
    assert(stands_at(a + needle, needle, at));
    assert((needle + b).subrange(0, k) =~= needle);
    assert(stands_at(needle + b, needle, 0));
}

/// A text holds another exactly where it is made up of something, that text and
/// something.
pub proof fn law_held_text_has_surroundings(s: Seq<char>, needle: Seq<char>)
    ensures
        holds_text(s, needle) <==> exists|a: Seq<char>, b: Seq<char>| s == #[trigger] (a + needle
            + b),
{
    if holds_text(s, needle) {
        let at = choose|at: int| stands_at(s, needle, at);
        let a = s.take(at);
        let b = s.skip(at + needle.len());
        assert(s =~= a + needle + b);
    }
    if exists|a: Seq<char>, b: Seq<char>| s == #[trigger] (a + needle + b) {
        let (a, b) = choose|a: Seq<char>, b: Seq<char>| s == #[trigger] (a + needle + b);
        law_text_is_held(a, needle, b);
    }
}

/// The number that decimal digits stand for.
pub open spec fn number(s: Seq<char>) -> int
    decreases s.len(),
{
    if s.len() == 0 {
        0
    } else {
        10 * number(s.drop_last()) + (s.last() as int - '0' as int)
    }
}

/// The digits of a number stand for it, and begin with no zero but that of 0.
pub proof fn law_digits_stand_for_the_number(n: nat)
    ensures
        number(digits(n)) == n,
        forall|i: int| 0 <= i < digits(n).len() ==> '0' <= #[trigger] digits(n)[i] <= '9',
        digits(n).len() > 0,
        n > 0 ==> digits(n)[0] != '0',
    decreases n,
{
    if n < 10 {
        assert(digits(n).drop_last().len() == 0);
        assert(number(digits(n).drop_last()) == 0);
        assert(digits(n).last() == digit(n));
    } else {
        law_digits_stand_for_the_number(n / 10);
        let before = digits(n / 10);
        assert(digits(n).drop_last() =~= before);
        assert(digits(n).last() == digit(n % 10));
        assert forall|i: int| 0 <= i < digits(n).len() implies '0' <= #[trigger] digits(n)[i]
            <= '9' by {
            if i < before.len() {
                assert(digits(n)[i] == before[i]);
            }
        }
    }
}

/// A text repeated is that many copies of it, one after the other.
pub proof fn law_repeated_are_copies(s: Seq<char>, n: nat)
    ensures
        repeated(s, n).len() == n * s.len(),
        n > 0 ==> repeated(s, n).take(s.len() as int) == s,
        n > 0 ==> repeated(s, n).skip(s.len() as int) == repeated(s, (n - 1) as nat),
    decreases n,
{
    if n > 0 {
        law_repeated_are_copies(s, (n - 1) as nat);
        assert(n * s.len() == (n - 1) * s.len() + s.len()) by (nonlinear_arith)
            requires
                n > 0,
        ;
        let k = s.len() as int;
        let before = repeated(s, (n - 1) as nat);
        if n == 1 {
            assert(repeated(s, n) =~= s);
            assert(repeated(s, n).take(k) =~= s);
            assert(repeated(s, n).skip(k) =~= before);
        } else {
            assert(before.len() >= k) by (nonlinear_arith)
                requires
                    before.len() == (n - 1) * k,
                    n >= 2,
                    k >= 0,
            ;
            assert(repeated(s, n).take(k) =~= before.take(k));
            assert(repeated(s, n).skip(k) =~= before.skip(k) + s);
            assert(before.skip(k) == repeated(s, (n - 2) as nat));
        }
    } else {
        assert(0 * s.len() == 0) by (nonlinear_arith);
    }
}

/// Texts are joined one after the other, with the separator between neighbours and
/// nowhere else.
pub proof fn law_joined_text(parts: Seq<Seq<char>>, last: Seq<char>, sep: Seq<char>)
    ensures
        joined(Seq::<Seq<char>>::empty(), sep).len() == 0,
        parts.len() == 0 ==> joined(parts.push(last), sep) == last,
        parts.len() > 0 ==> joined(parts.push(last), sep) == joined(parts, sep) + sep + last,
{
    let all = parts.push(last);
    if parts.len() == 0 {
        assert(all.len() == 1);
        assert(all[0] == last);
    } else {
        assert(all.take(all.len() - 1) =~= parts);
        assert(all.drop_last() =~= parts);
    }
}

/// The parts that are kept are those that are not empty, in their order.
pub proof fn law_nonempty_parts(parts: Seq<Seq<char>>)
    ensures
        nonempty(parts) == parts.filter(|p: Seq<char>| p.len() > 0),
    decreases parts.len(),
{
    reveal(Seq::filter);
    if parts.len() > 0 {
        assert(parts.drop_last() =~= parts.take(parts.len() - 1));
        law_nonempty_parts(parts.drop_last());
    }
}

/// Lowering turns the capitals of ASCII into small letters and changes nothing else.
pub proof fn law_lowered_text(s: Seq<char>, i: int)
    requires
        0 <= i < s.len(),
    ensures
        lowered(s).len() == s.len(),
        'A' <= s[i] <= 'Z' ==> lowered(s)[i] as int == s[i] as int + 32,
        !('A' <= s[i] <= 'Z') ==> lowered(s)[i] == s[i],
        lowered(lowered(s)) == lowered(s),
{
    assert(lowered(lowered(s)) =~= lowered(s)) by {
        assert forall|j: int| 0 <= j < s.len() implies lowered(lowered(s))[j] == lowered(s)[j] by {
        }
    }
}

/// What is held by a part of a text is held by the text.
pub proof fn law_held_text_is_held(s: Seq<char>, part: Seq<char>, needle: Seq<char>)
    requires
        holds_text(s, part),
        holds_text(part, needle),
    ensures
        holds_text(s, needle),
{
    let at = choose|at: int| stands_at(s, part, at);
    let k = choose|k: int| stands_at(part, needle, k);
    assert(s.subrange(at + k, at + k + needle.len()) =~= s.subrange(at, at + part.len()).subrange(
        k,
        k + needle.len(),
    ));
    assert(stands_at(s, needle, at + k));
}

/// What separates is what is named: a character, a line break, white space, or white
/// space and commas.
pub proof fn law_separators_separate(c: char, other: char)
    ensures
        separates(Separator::Char(c), other) <==> other == c,
        separates(Separator::LineBreak, c) <==> c == '\n' || c == '\r',
        separates(Separator::Space, c) <==> is_space(c),
        separates(Separator::List, c) <==> c == ',' || is_space(c),
        is_space(' ') && is_space('\t') && is_space('\n') && is_space('\r'),
        'a' <= c <= 'z' || 'A' <= c <= 'Z' || '0' <= c <= '9' || c == '-' || c == '_' || c == ','
            ==> !is_space(c) && !is_control(c),
{
}

} // verus!

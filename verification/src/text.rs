//! Text as sequences of characters: the few string operations the rest of the
//! library needs, each with its meaning as a spec function.
use vstd::prelude::*;
use vstd::string::StringExecFns;

verus! {

/// `String::push` appends the given character to the end of the string.
pub assume_specification[ String::push ](s: &mut String, c: char)
    ensures
        final(s)@ == old(s)@.push(c),
;

/// The characters of a string, as a vector.
pub fn chars_of(s: &str) -> (r: Vec<char>)
    ensures
        r@ == s@,
{
    let mut out: Vec<char> = Vec::new();
    for c in it: s.chars()
        invariant
            it.seq() == s@,
            out@ == s@.take(it.index()),
    {
        assert(s@.take(it.index()).push(c) =~= s@.take(it.index() + 1));
        out.push(c);
    }
    assert(s@.take(s@.len() as int) =~= s@);
    out
}

/// The string made of `cs[from..to]`.
pub fn string_of(cs: &Vec<char>, from: usize, to: usize) -> (r: String)
    requires
        from <= to <= cs@.len(),
    ensures
        r@ == cs@.subrange(from as int, to as int),
{
    let mut out: String = String::new();
    let mut i: usize = from;
    while i < to
        invariant
            from <= i <= to <= cs@.len(),
            out@ == cs@.subrange(from as int, i as int),
        decreases to - i,
    {
        assert(cs@.subrange(from as int, i as int).push(cs@[i as int]) =~= cs@.subrange(
            from as int,
            i + 1,
        ));
        out.push(cs[i]);
        i = i + 1;
    }
    out
}

/// Whether two strings hold the same characters.
pub fn same(a: &str, b: &str) -> (r: bool)
    ensures
        r == (a@ == b@),
{
    a.to_owned() == b.to_owned()
}

/// The texts of a sequence of strings.
pub open spec fn texts(v: Seq<String>) -> Seq<Seq<char>> {
    Seq::new(v.len(), |i: int| v[i]@)
}

/// The text of an optional string.
pub open spec fn opt_text(o: Option<String>) -> Option<Seq<char>> {
    match o {
        Some(s) => Some(s@),
        None => None,
    }
}

pub broadcast proof fn lemma_texts_push(v: Seq<String>, s: String)
    ensures
        #[trigger] texts(v.push(s)) == texts(v).push(s@),
{
    assert(texts(v.push(s)) =~= texts(v).push(s@));
}

/// What pairs of strings hold.
pub open spec fn pair_views(v: Seq<(String, String)>) -> Seq<(Seq<char>, Seq<char>)> {
    Seq::new(v.len(), |i: int| (v[i].0@, v[i].1@))
}

/// A copy of an optional string.
pub fn copy_opt(o: &Option<String>) -> (r: Option<String>)
    ensures
        opt_text(r) == opt_text(*o),
{
    match o {
        Some(s) => Some(s.clone()),
        None => None,
    }
}

/// A copy of a list of strings.
pub fn copy_all(v: &Vec<String>) -> (r: Vec<String>)
    ensures
        texts(r@) == texts(v@),
{
    let mut out: Vec<String> = Vec::new();
    let mut i: usize = 0;
    while i < v.len()
        invariant
            i <= v@.len(),
            texts(out@) == texts(v@).take(i as int),
        decreases v.len() - i,
    {
        let s = v[i].clone();
        proof {
            lemma_texts_push(out@, s);
        }
        out.push(s);
        assert(texts(out@) =~= texts(v@).take(i + 1));
        i = i + 1;
    }
    assert(texts(v@).take(v@.len() as int) =~= texts(v@));
    out
}

/// Two texts, one after the other.
pub fn cat(a: &str, b: &str) -> (r: String)
    ensures
        r@ == a@ + b@,
{
    a.to_owned().concat(b)
}

/// Three texts, one after the other.
pub fn cat3(a: &str, b: &str, c: &str) -> (r: String)
    ensures
        r@ == a@ + b@ + c@,
{
    a.to_owned().concat(b).concat(c)
}

/// Four texts, one after the other.
pub fn cat4(a: &str, b: &str, c: &str, d: &str) -> (r: String)
    ensures
        r@ == a@ + b@ + c@ + d@,
{
    a.to_owned().concat(b).concat(c).concat(d)
}

/// Whether a list of strings holds a text.
pub fn holds(v: &Vec<String>, s: &str) -> (r: bool)
    ensures
        r == texts(v@).contains(s@),
{
    let mut i: usize = 0;
    while i < v.len()
        invariant
            i <= v@.len(),
            forall|k: int| 0 <= k < i ==> #[trigger] texts(v@)[k] != s@,
        decreases v.len() - i,
    {
        if same(v[i].as_str(), s) {
            assert(texts(v@)[i as int] == s@);
            return true;
        }
        i = i + 1;
    }
    false
}

/// The position of the first `c` in `s`, or the length of `s`.
pub open spec fn index_of(s: Seq<char>, c: char) -> int
    decreases s.len(),
{
    if s.len() == 0 || s[0] == c {
        0
    } else {
        1 + index_of(s.drop_first(), c)
    }
}

/// `index_of` is the one position that has no `c` before it and is either the
/// end or holds `c`.
pub proof fn lemma_index_of(s: Seq<char>, c: char, k: int)
    requires
        0 <= k <= s.len(),
        forall|j: int| 0 <= j < k ==> s[j] != c,
        k < s.len() ==> s[k] == c,
    ensures
        index_of(s, c) == k,
    decreases s.len(),
{
    if s.len() == 0 || s[0] == c {
    } else {
        let t = s.drop_first();
        assert forall|j: int| 0 <= j < k - 1 implies t[j] != c by {
            assert(t[j] == s[j + 1]);
        }
        lemma_index_of(t, c, k - 1);
    }
}

/// What `index_of` says of the text before and at the position.
pub proof fn lemma_index_of_bounds(s: Seq<char>, c: char)
    ensures
        0 <= index_of(s, c) <= s.len(),
        forall|j: int| 0 <= j < index_of(s, c) ==> s[j] != c,
        index_of(s, c) < s.len() ==> s[index_of(s, c)] == c,
        index_of(s, c) < s.len() <==> s.contains(c),
    decreases s.len(),
{
    if s.len() == 0 || s[0] == c {
    } else {
        let t = s.drop_first();
        lemma_index_of_bounds(t, c);
        assert forall|j: int| 0 <= j < index_of(s, c) implies s[j] != c by {
            if j > 0 {
                assert(s[j] == t[j - 1]);
            }
        }
        if s.contains(c) {
            let k = choose|k: int| 0 <= k < s.len() && s[k] == c;
            assert(t[k - 1] == c);
        }
    }
}

fn find(cs: &Vec<char>, from: usize, c: char) -> (r: usize)
    requires
        from <= cs@.len(),
    ensures
        r == from + index_of(cs@.skip(from as int), c),
        from <= r <= cs@.len(),
        r < cs@.len() ==> cs@[r as int] == c,
{
    let mut i: usize = from;
    while i < cs.len() && cs[i] != c
        invariant
            from <= i <= cs@.len(),
            forall|j: int| from <= j < i ==> cs@[j] != c,
        decreases cs.len() - i,
    {
        i = i + 1;
    }
    proof {
        let t = cs@.skip(from as int);
        assert forall|j: int| 0 <= j < i - from implies t[j] != c by {
            assert(t[j] == cs@[j + from]);
        }
        lemma_index_of(t, c, i - from);
    }
    i
}

/// Whether `s` holds the character `c`.
pub fn has_char(s: &str, c: char) -> (r: bool)
    ensures
        r == s@.contains(c),
{
    let cs = chars_of(s);
    let k: usize = find(&cs, 0, c);
    proof {
        assert(cs@.skip(0) =~= s@);
        lemma_index_of_bounds(s@, c);
    }
    k < cs.len()
}

/// `s` at the first `sep`: what comes before it and what comes after it.
pub open spec fn split_once_spec(s: Seq<char>, sep: char) -> Option<(Seq<char>, Seq<char>)> {
    let k = index_of(s, sep);
    if k < s.len() {
        Some((s.take(k), s.skip(k + 1)))
    } else {
        None
    }
}

/// The two parts of `s` around its first `sep`.
pub fn split_once(s: &str, sep: char) -> (r: Option<(String, String)>)
    ensures
        match r {
            Some(p) => split_once_spec(s@, sep) == Some((p.0@, p.1@)),
            None => split_once_spec(s@, sep) is None,
        },
{
    let cs = chars_of(s);
    let k: usize = find(&cs, 0, sep);
    assert(cs@.skip(0) =~= s@);
    if k < cs.len() {
        let a = string_of(&cs, 0, k);
        let b = string_of(&cs, k + 1, cs.len());
        assert(a@ =~= s@.take(k as int));
        assert(b@ =~= s@.skip(k + 1));
        Some((a, b))
    } else {
        None
    }
}

/// The parts of `s` between the occurrences of `sep`; always at least one.
pub open spec fn split_spec(s: Seq<char>, sep: char) -> Seq<Seq<char>>
    decreases s.len(),
{
    let k = index_of(s, sep);
    if k < s.len() {
        proof {
            lemma_index_of_bounds(s, sep);
        }
        seq![s.take(k)] + split_spec(s.skip(k + 1), sep)
    } else {
        seq![s]
    }
}

/// A text without `sep` is one part.
pub proof fn lemma_split_single(s: Seq<char>, sep: char)
    requires
        !s.contains(sep),
    ensures
        split_spec(s, sep) == seq![s],
{
    lemma_index_of_bounds(s, sep);
}

/// The parts of two texts with `sep` between them are the parts of each.
pub proof fn lemma_split_join(a: Seq<char>, b: Seq<char>, sep: char)
    ensures
        split_spec(a + seq![sep] + b, sep) == split_spec(a, sep) + split_spec(b, sep),
    decreases a.len(),
{
    let whole = a + seq![sep] + b;
    let k = index_of(a, sep);
    lemma_index_of_bounds(a, sep);
    assert forall|j: int| 0 <= j < k implies whole[j] != sep by {
        assert(whole[j] == a[j]);
    }
    lemma_index_of(whole, sep, k);
    if k < a.len() {
        let rest = a.skip(k + 1);
        lemma_split_join(rest, b, sep);
        assert(whole.take(k) =~= a.take(k));
        assert(whole.skip(k + 1) =~= rest + seq![sep] + b);
        assert(split_spec(whole, sep) =~= split_spec(a, sep) + split_spec(b, sep));
    } else {
        assert(whole.take(k) =~= a);
        assert(whole.skip(k + 1) =~= b);
    }
}

/// There is a part at least, no part holds `sep`, and what is in a part is in the text.
pub proof fn lemma_split_parts(s: Seq<char>, sep: char)
    ensures
        split_spec(s, sep).len() >= 1,
        forall|i: int, c: char|
            0 <= i < split_spec(s, sep).len() && #[trigger] split_spec(s, sep)[i].contains(c)
                ==> c != sep && s.contains(c),
    decreases s.len(),
{
    lemma_index_of_bounds(s, sep);
    let k = index_of(s, sep);
    let parts = split_spec(s, sep);
    if k < s.len() {
        let rest = s.skip(k + 1);
        lemma_split_parts(rest, sep);
        assert forall|i: int, c: char|
            0 <= i < parts.len() && #[trigger] parts[i].contains(c) implies c != sep && s.contains(
            c,
        ) by {
            if i == 0 {
                let j = s.take(k).index_of(c);
                assert(s[j] == c);
            } else {
                assert(parts[i] == split_spec(rest, sep)[i - 1]);
                assert(split_spec(rest, sep)[i - 1].contains(c));
                let j = rest.index_of(c);
                assert(s[k + 1 + j] == c);
            }
        }
    } else {
        assert forall|i: int, c: char|
            0 <= i < parts.len() && #[trigger] parts[i].contains(c) implies c != sep && s.contains(
            c,
        ) by {
            let j = s.index_of(c);
            assert(s[j] != sep);
        }
    }
}

/// Parts without `sep` are the parts of the text that joins them.
pub proof fn lemma_joined_is_split(parts: Seq<Seq<char>>, sep: char)
    requires
        parts.len() >= 1,
        forall|i: int| 0 <= i < parts.len() ==> !(#[trigger] parts[i]).contains(sep),
    ensures
        split_spec(joined(parts, seq![sep]), sep) == parts,
    decreases parts.len(),
{
    if parts.len() == 1 {
        lemma_split_single(parts[0], sep);
        assert(parts =~= seq![parts[0]]);
    } else {
        let front = parts.drop_last();
        assert forall|i: int| 0 <= i < front.len() implies !(#[trigger] front[i]).contains(sep) by {
            assert(front[i] == parts[i]);
        }
        lemma_joined_is_split(front, sep);
        assert(!parts[parts.len() - 1].contains(sep));
        lemma_split_single(parts.last(), sep);
        lemma_split_join(joined(front, seq![sep]), parts.last(), sep);
        assert(parts =~= front + seq![parts.last()]);
    }
}

/// What is in joined parts is in one of them, or in what stands between them.
pub proof fn lemma_joined_holds(parts: Seq<Seq<char>>, sep: Seq<char>, c: char)
    requires
        !sep.contains(c),
        forall|i: int| 0 <= i < parts.len() ==> !(#[trigger] parts[i]).contains(c),
    ensures
        !joined(parts, sep).contains(c),
    decreases parts.len(),
{
    if parts.len() == 1 {
        assert(!parts[0].contains(c));
    } else if parts.len() > 1 {
        let front = parts.drop_last();
        assert forall|i: int| 0 <= i < front.len() implies !(#[trigger] front[i]).contains(c) by {
            assert(front[i] == parts[i]);
        }
        lemma_joined_holds(front, sep, c);
        assert(!parts[parts.len() - 1].contains(c));
        let whole = joined(parts, sep);
        let head = joined(front, sep);
        if whole.contains(c) {
            let j = whole.index_of(c);
            if j < head.len() {
                assert(head[j] == c);
            } else if j < head.len() + sep.len() {
                assert(sep[j - head.len()] == c);
            } else {
                assert(parts.last()[j - head.len() - sep.len()] == c);
            }
        }
    }
}

/// The parts of `s` between the occurrences of `sep`.
pub fn split(s: &str, sep: char) -> (r: Vec<String>)
    ensures
        texts(r@) == split_spec(s@, sep),
{
    let cs = chars_of(s);
    let mut out: Vec<String> = Vec::new();
    let mut from: usize = 0;
    assert(cs@.skip(0) =~= s@);
    assert(texts(out@) + split_spec(s@, sep) =~= split_spec(s@, sep));
    loop
        invariant
            cs@ == s@,
            from <= cs@.len(),
            texts(out@) + split_spec(cs@.skip(from as int), sep) == split_spec(s@, sep),
        decreases cs@.len() - from,
    {
        let ghost rest = cs@.skip(from as int);
        let k: usize = find(&cs, from, sep);
        let part = string_of(&cs, from, k);
        assert(part@ =~= rest.take(k - from));
        let ghost before = texts(out@);
        out.push(part);
        proof {
            lemma_texts_push(out@.drop_last(), part);
            assert(out@.drop_last().push(part) =~= out@);
        }
        assert(texts(out@) == before.push(part@));
        if k < cs.len() {
            assert(rest.skip(k - from + 1) =~= cs@.skip(k + 1));
            assert(texts(out@) + split_spec(cs@.skip(k + 1), sep) =~= before + (seq![part@]
                + split_spec(cs@.skip(k + 1), sep)));
            from = k + 1;
        } else {
            assert(rest.take(k - from) =~= rest);
            assert(texts(out@) =~= before + seq![rest]);
            return out;
        }
    }
}

/// Whether `s` begins with `p`.
pub open spec fn starts(s: Seq<char>, p: Seq<char>) -> bool {
    p.len() <= s.len() && s.take(p.len() as int) == p
}

/// Whether `s` begins with `p`.
pub fn starts_with(s: &str, p: &str) -> (r: bool)
    ensures
        r == starts(s@, p@),
{
    let cs = chars_of(s);
    let ps = chars_of(p);
    if ps.len() > cs.len() {
        return false;
    }
    let mut i: usize = 0;
    while i < ps.len()
        invariant
            cs@ == s@,
            ps@ == p@,
            i <= ps@.len() <= cs@.len(),
            cs@.take(i as int) == ps@.take(i as int),
        decreases ps.len() - i,
    {
        if cs[i] != ps[i] {
            proof {
                if cs@.take(ps@.len() as int) == ps@ {
                    assert(cs@.take(ps@.len() as int)[i as int] == ps@[i as int]);
                }
            }
            return false;
        }
        assert(cs@.take(i + 1) =~= cs@.take(i as int).push(cs@[i as int]));
        assert(ps@.take(i + 1) =~= ps@.take(i as int).push(ps@[i as int]));
        i = i + 1;
    }
    assert(ps@.take(ps@.len() as int) =~= ps@);
    true
}

/// What follows `p` in `s`, when `s` begins with `p`.
pub fn strip_prefix(s: &str, p: &str) -> (r: Option<String>)
    ensures
        match r {
            Some(t) => starts(s@, p@) && t@ == s@.skip(p@.len() as int),
            None => !starts(s@, p@),
        },
{
    if starts_with(s, p) {
        let cs = chars_of(s);
        let n: usize = p.unicode_len();
        let t = string_of(&cs, n, cs.len());
        assert(t@ =~= s@.skip(n as int));
        Some(t)
    } else {
        None
    }
}

/// Characters with the Unicode property `White_Space`.
pub open spec fn white(c: char) -> bool {
    let n = c as u32;
    ||| 0x9 <= n <= 0xd
    ||| n == 0x20
    ||| n == 0x85
    ||| n == 0xa0
    ||| n == 0x1680
    ||| 0x2000 <= n <= 0x200a
    ||| n == 0x2028
    ||| n == 0x2029
    ||| n == 0x202f
    ||| n == 0x205f
    ||| n == 0x3000
}

/// Whether `c` is white space.
pub fn is_white(c: char) -> (r: bool)
    ensures
        r == white(c),
{
    let n: u32 = c as u32;
    (0x9 <= n && n <= 0xd) || n == 0x20 || n == 0x85 || n == 0xa0 || n == 0x1680 || (0x2000 <= n
        && n <= 0x200a) || n == 0x2028 || n == 0x2029 || n == 0x202f || n == 0x205f || n == 0x3000
}

/// `s` without the white space in front.
pub open spec fn trim_front(s: Seq<char>) -> Seq<char>
    decreases s.len(),
{
    if s.len() > 0 && white(s[0]) {
        trim_front(s.drop_first())
    } else {
        s
    }
}

/// `s` without the white space at the end.
pub open spec fn trim_back(s: Seq<char>) -> Seq<char>
    decreases s.len(),
{
    if s.len() > 0 && white(s.last()) {
        trim_back(s.drop_last())
    } else {
        s
    }
}

/// `s` without the white space on either side.
pub open spec fn trimmed(s: Seq<char>) -> Seq<char> {
    trim_back(trim_front(s))
}

/// `s` without the white space on either side.
pub fn trim(s: &str) -> (r: String)
    ensures
        r@ == trimmed(s@),
{
    let cs = chars_of(s);
    let mut a: usize = 0;
    assert(cs@.skip(0) =~= s@);
    while a < cs.len() && is_white(cs[a])
        invariant
            a <= cs@.len(),
            trim_front(cs@.skip(a as int)) == trim_front(s@),
        decreases cs.len() - a,
    {
        assert(cs@.skip(a as int).drop_first() =~= cs@.skip(a + 1));
        a = a + 1;
    }
    let mut b: usize = cs.len();
    assert(cs@.subrange(a as int, b as int) =~= cs@.skip(a as int));
    while a < b && is_white(cs[b - 1])
        invariant
            a <= b <= cs@.len(),
            trim_back(cs@.subrange(a as int, b as int)) == trimmed(s@),
        decreases b - a,
    {
        assert(cs@.subrange(a as int, b as int).drop_last() =~= cs@.subrange(a as int, b - 1));
        b = b - 1;
    }
    string_of(&cs, a, b)
}

proof fn lemma_trim_front(s: Seq<char>)
    ensures
        trim_front(s).len() > 0 ==> !white(trim_front(s)[0]),
        trim_front(s).len() > 0 ==> trim_front(s).last() == s.last(),
        trim_front(s).len() <= s.len(),
    decreases s.len(),
{
    if s.len() > 0 && white(s[0]) {
        lemma_trim_front(s.drop_first());
    }
}

proof fn lemma_trim_back(s: Seq<char>)
    ensures
        trim_back(s).len() > 0 ==> !white(trim_back(s).last()),
        trim_back(s).len() > 0 ==> trim_back(s)[0] == s[0],
        trim_back(s).len() <= s.len(),
    decreases s.len(),
{
    if s.len() > 0 && white(s.last()) {
        lemma_trim_back(s.drop_last());
    }
}

/// What was trimmed has no space at its ends, and neither has its lower-case form:
/// trimming it again changes nothing.
pub proof fn lemma_trimmed_once(s: Seq<char>)
    ensures
        trimmed(trimmed(s)) == trimmed(s),
        trimmed(lower(trimmed(s))) == lower(trimmed(s)),
{
    let t = trimmed(s);
    lemma_trim_front(s);
    lemma_trim_back(s);
    lemma_trim_front(trim_back(s));
    lemma_trim_back(trim_front(s));
    if t.len() > 0 {
        assert(!white(t[0]) && !white(t.last()));
        let l = lower(t);
        assert(l[0] == lower_char(t[0]));
        assert(l.last() == lower_char(t.last()));
        assert(!white(l[0]) && !white(l.last()));
    }
}

/// `s` without the occurrences of `c` at its end.
pub open spec fn drop_trailing(s: Seq<char>, c: char) -> Seq<char>
    decreases s.len(),
{
    if s.len() > 0 && s.last() == c {
        drop_trailing(s.drop_last(), c)
    } else {
        s
    }
}

/// `s` without the occurrences of `c` at its end.
pub fn trim_end_char(s: &str, c: char) -> (r: String)
    ensures
        r@ == drop_trailing(s@, c),
{
    let cs = chars_of(s);
    let mut b: usize = cs.len();
    assert(cs@.take(b as int) =~= s@);
    while b > 0 && cs[b - 1] == c
        invariant
            b <= cs@.len(),
            drop_trailing(cs@.take(b as int), c) == drop_trailing(s@, c),
        decreases b,
    {
        assert(cs@.take(b as int).drop_last() =~= cs@.take(b - 1));
        b = b - 1;
    }
    assert(cs@.subrange(0, b as int) =~= cs@.take(b as int));
    string_of(&cs, 0, b)
}

/// The lower-case form of an ASCII capital, any other character itself.
pub open spec fn lower_char(c: char) -> char {
    if 'A' <= c <= 'Z' {
        ((c as u32 + 32) as u32) as char
    } else {
        c
    }
}

/// `s` with its ASCII capitals in lower case.
pub open spec fn lower(s: Seq<char>) -> Seq<char> {
    s.map_values(|c: char| lower_char(c))
}

fn lower_one(c: char) -> (r: char)
    ensures
        r == lower_char(c),
{
    if 'A' <= c && c <= 'Z' {
        let b: u8 = c as u8;
        (b + 32) as char
    } else {
        c
    }
}

/// `s` with its ASCII capitals in lower case.
pub fn ascii_lower(s: &str) -> (r: String)
    ensures
        r@ == lower(s@),
{
    let cs = chars_of(s);
    let mut out: String = String::new();
    let mut i: usize = 0;
    while i < cs.len()
        invariant
            cs@ == s@,
            i <= cs@.len(),
            out@ == lower(s@).take(i as int),
        decreases cs.len() - i,
    {
        assert(lower(s@).take(i as int).push(lower_char(cs@[i as int])) =~= lower(s@).take(i + 1));
        out.push(lower_one(cs[i]));
        i = i + 1;
    }
    assert(lower(s@).take(s@.len() as int) =~= lower(s@));
    out
}

/// A text in lower case by the rules of Unicode.
pub uninterp spec fn lowercased(s: Seq<char>) -> Seq<char>;

/// Whether every character is an ASCII character.
pub open spec fn ascii(s: Seq<char>) -> bool {
    forall|i: int| 0 <= i < s.len() ==> (#[trigger] s[i] as u32) < 128
}

/// `str::to_lowercase`: the text in lower case by the rules of Unicode. On ASCII
/// characters these change the letters `A` to `Z` and nothing else.
#[verifier::external_body]
pub(crate) fn unicode_lower(s: &str) -> (r: String)
    ensures
        r@ == lowercased(s@),
        ascii(s@) ==> r@ == lower(s@),
{
    s.to_lowercase()
}

/// Lowering twice is lowering once.
pub proof fn lemma_lower_idempotent(s: Seq<char>)
    ensures
        lower(lower(s)) == lower(s),
{
    assert(lower(lower(s)) =~= lower(s));
}

/// The texts in `parts`, with `sep` between each two.
pub open spec fn joined(parts: Seq<Seq<char>>, sep: Seq<char>) -> Seq<char>
    decreases parts.len(),
{
    if parts.len() == 0 {
        seq![]
    } else if parts.len() == 1 {
        parts[0]
    } else {
        joined(parts.drop_last(), sep) + sep + parts.last()
    }
}

/// The texts in `parts`, with `sep` between each two.
pub fn join(parts: &Vec<String>, sep: &str) -> (r: String)
    ensures
        r@ == joined(texts(parts@), sep@),
{
    let mut out: String = String::new();
    let mut i: usize = 0;
    while i < parts.len()
        invariant
            i <= parts@.len(),
            out@ == joined(texts(parts@).take(i as int), sep@),
        decreases parts.len() - i,
    {
        let ghost next = texts(parts@).take(i + 1);
        assert(next.drop_last() =~= texts(parts@).take(i as int));
        if i > 0 {
            out.append(sep);
        }
        out.append(parts[i].as_str());
        assert(out@ =~= joined(next, sep@));
        i = i + 1;
    }
    assert(texts(parts@).take(parts@.len() as int) =~= texts(parts@));
    out
}

/// `n` times the character `c`.
pub open spec fn repeated(c: char, n: nat) -> Seq<char> {
    Seq::new(n, |i: int| c)
}

/// `n` times the character `c`.
pub fn repeat(c: char, n: usize) -> (r: String)
    ensures
        r@ == repeated(c, n as nat),
{
    let mut cs: Vec<char> = Vec::new();
    while cs.len() < n
        invariant
            cs@ == repeated(c, cs@.len()),
            cs@.len() <= n,
        decreases n - cs.len(),
    {
        let ghost k = cs@.len();
        cs.push(c);
        assert(cs@ =~= repeated(c, k + 1));
    }
    let out = string_of(&cs, 0, n);
    assert(out@ =~= cs@);
    out
}

/// The number of bytes of a text in UTF-8.
pub open spec fn byte_len(s: Seq<char>) -> nat {
    vstd::utf8::encode_utf8(s).len()
}

/// The number of bytes of a text.
pub fn bytes_in(s: &str) -> (r: usize)
    ensures
        r == byte_len(s@),
{
    s.as_bytes().len()
}

/// The number of characters of a text.
pub fn chars_in(s: &str) -> (r: usize)
    ensures
        r == s@.len(),
{
    chars_of(s).len()
}

/// The digit for a value below ten.
pub open spec fn digit(n: int) -> char {
    (('0' as u32 + n) as u32) as char
}

/// A natural number in decimal.
pub open spec fn decimal(n: nat) -> Seq<char>
    decreases n,
{
    if n < 10 {
        seq![digit(n as int)]
    } else {
        decimal(n / 10).push(digit((n % 10) as int))
    }
}

/// An integer in decimal, a minus sign in front of a negative one.
pub open spec fn decimal_int(n: int) -> Seq<char> {
    if n < 0 {
        seq!['-'] + decimal((-n) as nat)
    } else {
        decimal(n as nat)
    }
}

fn digit_char(n: u64) -> (r: char)
    requires
        n < 10,
    ensures
        r == digit(n as int),
{
    let b: u8 = n as u8;
    (48u8 + b) as char
}

/// `n` in decimal.
pub fn show_u64(n: u64) -> (r: String)
    ensures
        r@ == decimal(n as nat),
    decreases n,
{
    if n < 10 {
        let mut out: String = String::new();
        out.push(digit_char(n));
        assert(out@ =~= seq![digit(n as int)]);
        out
    } else {
        let mut out = show_u64(n / 10);
        out.push(digit_char(n % 10));
        out
    }
}

/// `n` in decimal.
pub fn show_i64(n: i64) -> (r: String)
    ensures
        r@ == decimal_int(n as int),
{
    if n == i64::MIN {
        let d = show_u64(9223372036854775808);
        cat_minus(&d)
    } else if n < 0 {
        let d = show_u64((0 - n) as u64);
        cat_minus(&d)
    } else {
        show_u64(n as u64)
    }
}

fn cat_minus(d: &String) -> (r: String)
    ensures
        r@ == seq!['-'] + d@,
{
    let mut out: String = String::new();
    out.push('-');
    out.append(d.as_str());
    assert(out@ =~= seq!['-'] + d@);
    out
}

/// Whether every character is an ASCII digit.
pub open spec fn all_digits(s: Seq<char>) -> bool {
    forall|i: int| 0 <= i < s.len() ==> '0' <= #[trigger] s[i] <= '9'
}

/// The number that a sequence of digits writes.
pub open spec fn digits_value(s: Seq<char>) -> nat
    decreases s.len(),
{
    if s.len() == 0 {
        0
    } else {
        (digits_value(s.drop_last()) * 10 + (s.last() as u32 - '0' as u32)) as nat
    }
}

/// The digits of a number's text: an optional plus sign in front is left out.
pub open spec fn unsigned_digits(s: Seq<char>) -> Seq<char> {
    if s.len() > 0 && s[0] == '+' {
        s.skip(1)
    } else {
        s
    }
}

/// The `u64` that a text writes: digits, at least one, with an optional plus
/// sign in front, and a value that fits.
pub open spec fn u64_of(s: Seq<char>) -> Option<u64> {
    let d = unsigned_digits(s);
    if d.len() > 0 && all_digits(d) && digits_value(d) <= u64::MAX {
        Some(digits_value(d) as u64)
    } else {
        None
    }
}

proof fn lemma_digits_value_grows(s: Seq<char>, k: int)
    requires
        0 <= k <= s.len(),
        all_digits(s),
    ensures
        digits_value(s.take(k)) <= digits_value(s),
    decreases s.len() - k,
{
    if k == s.len() {
        assert(s.take(k) =~= s);
    } else {
        lemma_digits_value_grows(s, k + 1);
        assert(s.take(k + 1).drop_last() =~= s.take(k));
        assert('0' <= s[k] <= '9');
    }
}

/// The `u64` that `s` writes, if it writes one.
pub fn parse_u64(s: &str) -> (r: Option<u64>)
    ensures
        r == u64_of(s@),
{
    let cs = chars_of(s);
    let start: usize = if cs.len() > 0 && cs[0] == '+' {
        1
    } else {
        0
    };
    let ghost d = unsigned_digits(s@);
    assert(d =~= cs@.skip(start as int));
    if start == cs.len() {
        return None;
    }
    let mut i: usize = start;
    let mut n: u64 = 0;
    while i < cs.len()
        invariant
            start <= i <= cs@.len(),
            d == cs@.skip(start as int),
            all_digits(d.take(i - start)),
            n == digits_value(d.take(i - start)),
            d == unsigned_digits(s@),
        decreases cs.len() - i,
    {
        let c = cs[i];
        let ghost k = i - start;
        assert(d[k] == c);
        if c < '0' || c > '9' {
            return None;
        }
        let v: u64 = c as u64 - 48;
        assert(d.take(k + 1).drop_last() =~= d.take(k));
        assert forall|j: int| 0 <= j < k + 1 implies '0' <= #[trigger] d.take(k + 1)[j] <= '9' by {
            if j < k {
                assert(d.take(k + 1)[j] == d.take(k)[j]);
            }
        }
        if n > (u64::MAX - v) / 10 {
            proof {
                if all_digits(d) {
                    lemma_digits_value_grows(d, k + 1);
                }
            }
            return None;
        }
        n = n * 10 + v;
        i = i + 1;
    }
    assert(d.take(cs@.len() - start) =~= d);
    Some(n)
}

/// A number's decimal text writes that number.
pub proof fn lemma_decimal_is_read_back(n: nat)
    ensures
        all_digits(decimal(n)),
        decimal(n).len() > 0,
        digits_value(decimal(n)) == n,
    decreases n,
{
    if n < 10 {
        let s = decimal(n);
        assert(s.drop_last() =~= seq![]);
        assert(digits_value(s.drop_last()) == 0);
    } else {
        lemma_decimal_is_read_back(n / 10);
        let s = decimal(n);
        assert(s.drop_last() =~= decimal(n / 10));
        assert forall|i: int| 0 <= i < s.len() implies '0' <= #[trigger] s[i] <= '9' by {
            if i < s.len() - 1 {
                assert(s[i] == decimal(n / 10)[i]);
            }
        }
    }
}

/// Reading what `show_u64` writes gives the number back.
pub proof fn law_decimal_round_trip(n: u64)
    ensures
        u64_of(decimal(n as nat)) == Some(n),
{
    lemma_decimal_is_read_back(n as nat);
    let s = decimal(n as nat);
    assert('0' <= s[0] <= '9');
}

/// Whether `a` comes before `b` in the order of their characters' code points,
/// which is the order of their UTF-8 bytes.
pub open spec fn before(a: Seq<char>, b: Seq<char>) -> bool
    decreases a.len(),
{
    if b.len() == 0 {
        false
    } else if a.len() == 0 {
        true
    } else if a[0] != b[0] {
        a[0] < b[0]
    } else {
        before(a.drop_first(), b.drop_first())
    }
}

/// No text comes before itself.
pub proof fn lemma_before_irreflexive(a: Seq<char>)
    ensures
        !before(a, a),
    decreases a.len(),
{
    if a.len() > 0 {
        lemma_before_irreflexive(a.drop_first());
    }
}

/// The order is transitive.
pub proof fn lemma_before_transitive(a: Seq<char>, b: Seq<char>, c: Seq<char>)
    requires
        before(a, b),
        before(b, c),
    ensures
        before(a, c),
    decreases a.len(),
{
    if a.len() > 0 && a[0] == b[0] && b[0] == c[0] {
        lemma_before_transitive(a.drop_first(), b.drop_first(), c.drop_first());
    }
}

/// Of two different texts one comes before the other.
pub proof fn lemma_before_total(a: Seq<char>, b: Seq<char>)
    requires
        a != b,
    ensures
        before(a, b) || before(b, a),
    decreases a.len(),
{
    if a.len() > 0 && b.len() > 0 && a[0] == b[0] {
        if a.drop_first() == b.drop_first() {
            assert(a =~= seq![a[0]] + a.drop_first());
            assert(b =~= seq![b[0]] + b.drop_first());
        }
        lemma_before_total(a.drop_first(), b.drop_first());
    } else if a.len() == 0 && b.len() == 0 {
        assert(a =~= b);
    }
}

/// Whether `a` comes before `b`.
pub fn precedes(a: &str, b: &str) -> (r: bool)
    ensures
        r == before(a@, b@),
{
    let x = chars_of(a);
    let y = chars_of(b);
    let mut i: usize = 0;
    assert(x@.skip(0) =~= a@);
    assert(y@.skip(0) =~= b@);
    loop
        invariant
            i <= x@.len(),
            i <= y@.len(),
            before(a@, b@) == before(x@.skip(i as int), y@.skip(i as int)),
        decreases x@.len() - i,
    {
        if i == y.len() {
            return false;
        }
        if i == x.len() {
            return true;
        }
        assert(x@.skip(i as int)[0] == x@[i as int]);
        assert(y@.skip(i as int)[0] == y@[i as int]);
        if x[i] != y[i] {
            return x[i] < y[i];
        }
        assert(x@.skip(i as int).drop_first() =~= x@.skip(i + 1));
        assert(y@.skip(i as int).drop_first() =~= y@.skip(i + 1));
        i = i + 1;
    }
}

/// Whether each text comes before the next or equals it.
pub open spec fn in_order(v: Seq<Seq<char>>) -> bool {
    forall|i: int, j: int| 0 <= i < j < v.len() ==> !before(#[trigger] v[j], #[trigger] v[i])
}

/// Where `s` goes into `t`: behind the last text that does not come after it.
pub open spec fn slot(t: Seq<Seq<char>>, s: Seq<char>) -> int
    decreases t.len(),
{
    if t.len() > 0 && before(s, t.last()) {
        slot(t.drop_last(), s)
    } else {
        t.len() as int
    }
}

/// The texts of a list, each put in its place among those before it.
pub open spec fn ordered(v: Seq<Seq<char>>) -> Seq<Seq<char>>
    decreases v.len(),
{
    if v.len() == 0 {
        Seq::empty()
    } else {
        let rest = ordered(v.drop_last());
        rest.insert(slot(rest, v.last()), v.last())
    }
}

proof fn lemma_slot(t: Seq<Seq<char>>, s: Seq<char>)
    ensures
        0 <= slot(t, s) <= t.len(),
        slot(t, s) > 0 ==> !before(s, t[slot(t, s) - 1]),
        forall|j: int| slot(t, s) <= j < t.len() ==> before(s, #[trigger] t[j]),
    decreases t.len(),
{
    if t.len() > 0 && before(s, t.last()) {
        let u = t.drop_last();
        lemma_slot(u, s);
        assert forall|j: int| slot(t, s) <= j < t.len() implies before(s, #[trigger] t[j]) by {
            if j < u.len() {
                assert(t[j] == u[j]);
            }
        }
    }
}

/// The ordered list holds the same texts, each as often, and in order.
pub proof fn law_ordered(v: Seq<Seq<char>>)
    ensures
        in_order(ordered(v)),
        ordered(v).to_multiset() == v.to_multiset(),
        ordered(v).len() == v.len(),
    decreases v.len(),
{
    if v.len() > 0 {
        let rest = ordered(v.drop_last());
        law_ordered(v.drop_last());
        lemma_slot(rest, v.last());
        lemma_insert_in_order(rest, slot(rest, v.last()), v.last());
        vstd::seq_lib::to_multiset_insert(rest, slot(rest, v.last()), v.last());
        assert(v =~= v.drop_last().push(v.last()));
        vstd::seq_lib::to_multiset_build(v.drop_last(), v.last());
    } else {
        assert(ordered(v) =~= v);
    }
}

/// A list's strings in order.
pub fn sorted(v: &Vec<String>) -> (r: Vec<String>)
    ensures
        texts(r@) == ordered(texts(v@)),
{
    let mut out: Vec<String> = Vec::new();
    let mut i: usize = 0;
    assert(texts(out@) =~= ordered(texts(v@).take(0)));
    while i < v.len()
        invariant
            i <= v@.len(),
            texts(out@) == ordered(texts(v@).take(i as int)),
        decreases v.len() - i,
    {
        let s = v[i].clone();
        let mut k: usize = out.len();
        assert(texts(out@).take(k as int) =~= texts(out@));
        while k > 0 && precedes(s.as_str(), out[k - 1].as_str())
            invariant
                k <= out@.len(),
                slot(texts(out@).take(k as int), s@) == slot(texts(out@), s@),
            decreases k,
        {
            let ghost t = texts(out@).take(k as int);
            assert(t.last() == out@[k - 1]@);
            assert(t.drop_last() =~= texts(out@).take(k - 1));
            k = k - 1;
        }
        let ghost t = texts(out@);
        assert(slot(t, s@) == k) by {
            if k > 0 {
                assert(t.take(k as int).last() == out@[k - 1]@);
            }
        }
        out.insert(k, s);
        proof {
            assert(texts(out@) =~= t.insert(k as int, s@));
            let next = texts(v@).take(i + 1);
            assert(next.drop_last() =~= texts(v@).take(i as int));
            assert(next.last() == s@);
        }
        i = i + 1;
    }
    assert(texts(v@).take(v@.len() as int) =~= texts(v@));
    out
}

proof fn lemma_insert_in_order(t: Seq<Seq<char>>, k: int, s: Seq<char>)
    requires
        0 <= k <= t.len(),
        in_order(t),
        k > 0 ==> !before(s, t[k - 1]),
        forall|j: int| k <= j < t.len() ==> before(s, #[trigger] t[j]),
    ensures
        in_order(t.insert(k, s)),
{
    let u = t.insert(k, s);
    assert forall|i: int, j: int| 0 <= i < j < u.len() implies !before(
        #[trigger] u[j],
        #[trigger] u[i],
    ) by {
        if i < k && j == k {
            if before(s, t[i]) {
                if i < k - 1 {
                    assert(!before(t[k - 1], t[i]));
                    if t[i] != t[k - 1] {
                        lemma_before_total(t[i], t[k - 1]);
                        lemma_before_transitive(s, t[i], t[k - 1]);
                    }
                }
            }
        } else if i == k {
            assert(u[j] == t[j - 1]);
            if before(t[j - 1], s) {
                lemma_before_transitive(t[j - 1], s, t[j - 1]);
                lemma_before_irreflexive(t[j - 1]);
            }
        } else {
            let a = if i < k { i } else { i - 1 };
            let b = if j < k { j } else { j - 1 };
            assert(u[i] == t[a] && u[j] == t[b]);
        }
    }
}

/// Whether one text stands somewhere in another.
pub open spec fn contains_text(s: Seq<char>, part: Seq<char>) -> bool {
    exists|i: int| 0 <= i <= s.len() && #[trigger] starts(s.skip(i), part)
}

/// Whether `part` stands somewhere in `s`.
pub fn has_text(s: &str, part: &str) -> (r: bool)
    ensures
        r == contains_text(s@, part@),
{
    let cs = chars_of(s);
    let mut i: usize = 0;
    while i < cs.len()
        invariant
            i <= cs@.len(),
            cs@ == s@,
            forall|k: int| 0 <= k < i ==> !#[trigger] starts(s@.skip(k), part@),
        decreases cs.len() - i,
    {
        let rest = string_of(&cs, i, cs.len());
        assert(rest@ =~= s@.skip(i as int));
        if starts_with(rest.as_str(), part) {
            return true;
        }
        i = i + 1;
    }
    proof {
        reveal_strlit("");
        assert(s@.skip(i as int) =~= ""@);
    }
    starts_with("", part)
}

/// `String::from_utf8`: the text that bytes encode, where they are valid UTF-8.
#[verifier::external_body]
pub(crate) fn read_utf8(bytes: Vec<u8>) -> (r: Option<String>)
    ensures
        match r {
            Some(s) => vstd::utf8::valid_utf8(bytes@) && s@ == vstd::utf8::decode_utf8(bytes@),
            None => !vstd::utf8::valid_utf8(bytes@),
        },
{
    String::from_utf8(bytes).ok()
}

/// The text that bytes stand for, whatever they are.
pub uninterp spec fn lossy_text(bytes: Seq<u8>) -> Seq<char>;

/// `String::from_utf8_lossy`: the text that bytes stand for. Valid UTF-8 is
/// decoded; what is no valid UTF-8 becomes replacement characters. What comes out
/// depends on the bytes alone.
#[verifier::external_body]
pub(crate) fn read_lossy(bytes: &[u8]) -> (r: String)
    ensures
        r@ == lossy_text(bytes@),
        vstd::utf8::valid_utf8(bytes@) ==> r@ == vstd::utf8::decode_utf8(bytes@),
{
    String::from_utf8_lossy(bytes).to_string()
}

/// A text in quotes, its special characters escaped.
pub uninterp spec fn quoted_text(s: Seq<char>) -> Seq<char>;

/// The `Debug` form of a `str`: the text in quotes, its special characters
/// escaped. What comes out depends on the text alone.
#[verifier::external_body]
pub(crate) fn quoted(s: &str) -> (r: String)
    ensures
        r@ == quoted_text(s@),
{
    format!("{s:?}")
}

proof fn lemma_joined_front(a: Seq<char>, v: Seq<Seq<char>>, sep: Seq<char>)
    requires
        v.len() > 0,
    ensures
        joined(seq![a] + v, sep) == a + sep + joined(v, sep),
    decreases v.len(),
{
    let all = seq![a] + v;
    assert(all.last() == v.last());
    if v.len() == 1 {
        assert(all.drop_last() =~= seq![a]);
        assert(joined(seq![a], sep) == a);
    } else {
        assert(all.drop_last() =~= seq![a] + v.drop_last());
        lemma_joined_front(a, v.drop_last(), sep);
        assert(joined(all, sep) =~= a + sep + joined(v, sep));
    }
}

/// Joining the parts of a text gives the text back, and no part holds the separator.
pub proof fn law_joining_undoes_splitting(s: Seq<char>, sep: char)
    ensures
        joined(split_spec(s, sep), seq![sep]) == s,
        split_spec(s, sep).len() > 0,
        forall|i: int|
            0 <= i < split_spec(s, sep).len() ==> !(#[trigger] split_spec(s, sep)[i]).contains(sep),
    decreases s.len(),
{
    let k = index_of(s, sep);
    lemma_index_of_bounds(s, sep);
    let parts = split_spec(s, sep);
    if k < s.len() {
        let rest = s.skip(k + 1);
        law_joining_undoes_splitting(rest, sep);
        lemma_joined_front(s.take(k), split_spec(rest, sep), seq![sep]);
        assert(s =~= s.take(k) + seq![sep] + rest);
        assert forall|i: int| 0 <= i < parts.len() implies !(#[trigger] parts[i]).contains(sep) by {
            if i > 0 {
                assert(parts[i] == split_spec(rest, sep)[i - 1]);
            }
        }
    }
}

proof fn lemma_front_is_white(s: Seq<char>)
    ensures
        ({
            let n = s.len() - trim_front(s).len();
            &&& 0 <= n <= s.len()
            &&& trim_front(s) == s.skip(n)
            &&& forall|i: int| 0 <= i < n ==> white(#[trigger] s[i])
        }),
    decreases s.len(),
{
    if s.len() > 0 && white(s[0]) {
        let t = s.drop_first();
        lemma_front_is_white(t);
        let n = s.len() - trim_front(s).len();
        assert(trim_front(s) =~= s.skip(n));
        assert forall|i: int| 0 <= i < n implies white(#[trigger] s[i]) by {
            if i > 0 {
                assert(s[i] == t[i - 1]);
            }
        }
    } else {
        assert(s =~= s.skip(0));
    }
}

proof fn lemma_back_is_white(s: Seq<char>)
    ensures
        ({
            let n = trim_back(s).len() as int;
            &&& 0 <= n <= s.len()
            &&& trim_back(s) == s.take(n)
            &&& forall|i: int| n <= i < s.len() ==> white(#[trigger] s[i])
        }),
    decreases s.len(),
{
    if s.len() > 0 && white(s.last()) {
        let t = s.drop_last();
        lemma_back_is_white(t);
        let n = trim_back(s).len() as int;
        assert(trim_back(s) =~= s.take(n));
        assert forall|i: int| n <= i < s.len() implies white(#[trigger] s[i]) by {
            if i < t.len() {
                assert(s[i] == t[i]);
            }
        }
    } else {
        assert(s =~= s.take(s.len() as int));
    }
}

/// Trimming takes away white space at both ends, all of it and nothing else.
pub proof fn law_trimming_takes_white_space_only(s: Seq<char>)
    ensures
        exists|a: int, b: int|
            0 <= a <= b <= s.len() && trimmed(s) == #[trigger] s.subrange(a, b) && (forall|i: int|
                0 <= i < a || b <= i < s.len() ==> white(#[trigger] s[i])),
        trimmed(s).len() > 0 ==> !white(trimmed(s)[0]) && !white(trimmed(s).last()),
{
    let t = trim_front(s);
    lemma_front_is_white(s);
    lemma_back_is_white(t);
    lemma_trim_front(s);
    lemma_trim_back(t);
    let a = s.len() - t.len();
    let b = a + trimmed(s).len();
    assert(trimmed(s) =~= s.subrange(a, b));
    assert forall|i: int| 0 <= i < a || b <= i < s.len() implies white(#[trigger] s[i]) by {
        if b <= i {
            assert(s[i] == t[i - a]);
        }
    }
}

/// What is dropped from the end of a text is the given character alone, and all of it.
pub proof fn law_only_the_character_is_dropped(s: Seq<char>, c: char)
    ensures
        exists|n: nat| s == drop_trailing(s, c) + #[trigger] repeated(c, n),
        drop_trailing(s, c).len() > 0 ==> drop_trailing(s, c).last() != c,
    decreases s.len(),
{
    if s.len() > 0 && s.last() == c {
        let t = s.drop_last();
        law_only_the_character_is_dropped(t, c);
        let n = choose|n: nat| t == drop_trailing(t, c) + #[trigger] repeated(c, n);
        assert(repeated(c, n + 1) =~= repeated(c, n).push(c));
        assert(s =~= t.push(c));
        assert(t.push(c) =~= drop_trailing(t, c) + repeated(c, n).push(c));
    } else {
        assert(s =~= s + repeated(c, 0));
    }
}

/// Lowering a text changes its ASCII capitals, each to the letter 32 places on, and no
/// other character.
pub proof fn law_lowering_changes_capitals_only(s: Seq<char>, i: int)
    requires
        0 <= i < s.len(),
    ensures
        lower(s).len() == s.len(),
        'A' <= s[i] <= 'Z' ==> lower(s)[i] as int == s[i] as int + 32 && 'a' <= lower(s)[i] <= 'z',
        !('A' <= s[i] <= 'Z') ==> lower(s)[i] == s[i],
{
}

/// A number is written with the digit of its ones last and without a zero in front; a
/// negative one has a minus sign before it.
pub proof fn law_decimal_has_the_ones_last(n: nat)
    ensures
        decimal(n).last() as int == '0' as int + n % 10,
        n < 10 ==> decimal(n).len() == 1,
        n >= 10 ==> decimal(n) == decimal(n / 10) + seq![decimal(n).last()],
        n > 0 ==> decimal(n)[0] != '0',
        n > 0 ==> decimal_int(-n) == seq!['-'] + decimal(n),
        decimal_int(n as int) == decimal(n),
    decreases n,
{
    if n >= 10 {
        law_decimal_has_the_ones_last(n / 10);
        lemma_decimal_is_read_back(n / 10);
        assert(decimal(n) =~= decimal(n / 10) + seq![decimal(n).last()]);
    }
}

/// A text comes before its longer continuations, and where two texts first differ, the
/// smaller character decides.
pub proof fn law_first_difference_decides(
    p: Seq<char>,
    a: char,
    b: char,
    x: Seq<char>,
    y: Seq<char>,
)
    ensures
        before(p, p + seq![a] + x),
        a != b ==> (before(p + seq![a] + x, p + seq![b] + y) <==> a < b),
    decreases p.len(),
{
    let s = p + seq![a] + x;
    let t = p + seq![b] + y;
    if p.len() > 0 {
        let q = p.drop_first();
        law_first_difference_decides(q, a, b, x, y);
        assert(s.drop_first() =~= q + seq![a] + x);
        assert(t.drop_first() =~= q + seq![b] + y);
        assert(s[0] == p[0] && t[0] == p[0]);
    } else {
        assert(s[0] == a && t[0] == b);
    }
}

/// Whether a text ends in another.
pub open spec fn ends_in(s: Seq<char>, part: Seq<char>) -> bool {
    s.len() >= part.len() && s.skip(s.len() - part.len()) == part
}

/// A text that is put together ends in its last part.
pub broadcast proof fn lemma_ends_in(a: Seq<char>, b: Seq<char>)
    ensures
        ends_in(#[trigger] (a + b), b),
{
    assert((a + b).skip((a + b).len() - b.len()) =~= b);
}

/// The text of a string that may be absent is there exactly if the string is, and is its text.
pub proof fn law_absent_is_absent(s: String)
    ensures
        opt_text(Some(s)) == Some(s@),
        opt_text(None) is None,
{
}

/// The white characters are those with the Unicode property: the space and the controls from
/// the tab to the carriage return, the next line and the no-break space, and the spaces and
/// separators beyond Latin.
pub proof fn law_what_is_white(c: char)
    ensures
        (c as u32) < 128 ==> (white(c) <==> c == ' ' || c == '\t' || c == '\n' || c as u32 == 11
            || c as u32 == 12 || c == '\r'),
        (c as u32) >= 128 ==> (white(c) <==> c as u32 == 133 || c as u32 == 160 || c as u32 == 5760
            || 8192 <= c as u32 <= 8202 || c as u32 == 8232 || c as u32 == 8233 || c as u32 == 8239
            || c as u32 == 8287 || c as u32 == 12288),
{
}

/// A text is parted at the first place of a character: what comes before it does not hold the
/// character. A text without it is not parted.
pub proof fn law_texts_are_parted_at_the_first(a: Seq<char>, b: Seq<char>, sep: char)
    requires
        !a.contains(sep),
    ensures
        split_once_spec(a + seq![sep] + b, sep) == Some((a, b)),
        split_once_spec(a, sep) is None,
{
    let s = a + seq![sep] + b;
    assert(s[a.len() as int] == sep);
    assert forall|j: int| 0 <= j < a.len() implies s[j] != sep by {
        assert(a.contains(a[j]));
    }
    lemma_index_of(s, sep, a.len() as int);
    assert(s.take(a.len() as int) =~= a);
    assert(s.skip(a.len() as int + 1) =~= b);
    lemma_index_of_bounds(a, sep);
}

/// One text stands in another exactly if that is the one with something before and behind it.
pub proof fn law_what_stands_in_a_text(a: Seq<char>, part: Seq<char>, b: Seq<char>, s: Seq<char>)
    ensures
        contains_text(a + part + b, part),
        contains_text(s, part) ==> exists|x: Seq<char>, y: Seq<char>|
            s == #[trigger] (x + part + y),
{
    let all = a + part + b;
    let rest = all.skip(a.len() as int);
    assert(rest.take(part.len() as int) =~= part);
    assert(starts(rest, part));
    if contains_text(s, part) {
        let i = choose|i: int| 0 <= i <= s.len() && #[trigger] starts(s.skip(i), part);
        let x = s.take(i);
        let y = s.skip(i).skip(part.len() as int);
        assert(s.skip(i) =~= part + y) by {
            assert(s.skip(i).take(part.len() as int) =~= part);
            assert(s.skip(i) =~= s.skip(i).take(part.len() as int) + y);
        }
        assert(s =~= x + part + y) by {
            assert(s =~= x + s.skip(i));
        }
    }
}

} // verus!

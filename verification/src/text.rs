//! Text handling for form input: blank detection, trimming and the
//! comma-separated option list.
use vstd::prelude::*;

verus! {

/// The characters with the Unicode `White_Space` property.
pub open spec fn is_whitespace(c: char) -> bool {
    let n = c as u32;
    (0x09 <= n <= 0x0D) || n == 0x20 || n == 0x85 || n == 0xA0 || n == 0x1680 || (0x2000 <= n
        <= 0x200A) || n == 0x2028 || n == 0x2029 || n == 0x202F || n == 0x205F || n == 0x3000
}

/// `s` without its leading white space.
pub open spec fn trim_start(s: Seq<char>) -> Seq<char>
    decreases s.len(),
{
    if s.len() > 0 && is_whitespace(s[0]) {
        trim_start(s.drop_first())
    } else {
        s
    }
}

/// `s` without its trailing white space.
pub open spec fn trim_end(s: Seq<char>) -> Seq<char>
    decreases s.len(),
{
    if s.len() > 0 && is_whitespace(s.last()) {
        trim_end(s.drop_last())
    } else {
        s
    }
}

/// `s` without leading and trailing white space.
pub open spec fn trim(s: Seq<char>) -> Seq<char> {
    trim_end(trim_start(s))
}

/// `s` trims to the empty text: it holds nothing but white space.
pub open spec fn is_blank(s: Seq<char>) -> bool {
    trim(s).len() == 0
}

/// The pieces of `s` between its occurrences of `sep`, in order. A text
/// without `sep` is its own single piece.
pub open spec fn split(s: Seq<char>, sep: char) -> Seq<Seq<char>>
    decreases s.len(),
{
    if s.len() == 0 {
        seq![s]
    } else if s.last() == sep {
        split(s.drop_last(), sep).push(Seq::empty())
    } else {
        let before = split(s.drop_last(), sep);
        before.drop_last().push(before.last().push(s.last()))
    }
}

/// The option texts that a comma-separated list names: its pieces, each
/// trimmed, without the pieces that trim to nothing.
pub open spec fn option_texts(list: Seq<char>) -> Seq<Seq<char>> {
    split(list, ',').map_values(|piece: Seq<char>| trim(piece)).filter(
        |piece: Seq<char>| piece.len() > 0,
    )
}

/// The view of each text of `v`.
pub open spec fn texts_of(v: Seq<String>) -> Seq<Seq<char>> {
    v.map_values(|t: String| t@)
}

/// A text is taken for a date and time when it holds the separator `T` and
/// has at least sixteen characters, as in `2025-06-01T19:30`.
pub open spec fn looks_like_date(text: Seq<char>) -> bool {
    text.contains('T') && text.len() >= 16
}

/// Whether the character is white space.
pub fn char_is_whitespace(c: char) -> (r: bool)
    ensures
        r == is_whitespace(c),
{
    let n: u32 = c as u32;
    (0x09 <= n && n <= 0x0D) || n == 0x20 || n == 0x85 || n == 0xA0 || n == 0x1680 || (0x2000 <= n
        && n <= 0x200A) || n == 0x2028 || n == 0x2029 || n == 0x202F || n == 0x205F || n == 0x3000
}

/// The characters of `s`, in order.
pub fn chars_of(s: &str) -> (v: Vec<char>)
    ensures
        v@ == s@,
{
    let mut v: Vec<char> = Vec::new();
    for c in it: s.chars()
        invariant
            v@ == it.seq().take(it.index()),
            it.seq() == s@,
    {
        v.push(c);
    }
    v
}

/// Leading white space ends at `k`: trimming the start leaves `s.skip(k)`.
proof fn lemma_trim_start_at(s: Seq<char>, k: int)
    requires
        0 <= k <= s.len(),
        forall|j: int| 0 <= j < k ==> is_whitespace(#[trigger] s[j]),
        k == s.len() || !is_whitespace(s[k]),
    ensures
        trim_start(s) == s.skip(k),
    decreases k,
{
    if k == 0 {
        assert(s.skip(0) =~= s);
    } else {
        assert(is_whitespace(s[0]));
        let rest = s.drop_first();
        assert forall|j: int| 0 <= j < k - 1 implies is_whitespace(#[trigger] rest[j]) by {
            assert(rest[j] == s[j + 1]);
        }
        lemma_trim_start_at(rest, k - 1);
        assert(rest.skip(k - 1) =~= s.skip(k));
    }
}

/// Trailing white space starts at `k`: trimming the end leaves `s.take(k)`.
proof fn lemma_trim_end_at(s: Seq<char>, k: int)
    requires
        0 <= k <= s.len(),
        forall|j: int| k <= j < s.len() ==> is_whitespace(#[trigger] s[j]),
        k == 0 || !is_whitespace(s[k - 1]),
    ensures
        trim_end(s) == s.take(k),
    decreases s.len() - k,
{
    if k == s.len() {
        assert(s.take(k) =~= s);
    } else {
        assert(is_whitespace(s.last()));
        let rest = s.drop_last();
        lemma_trim_end_at(rest, k);
        assert(rest.take(k) =~= s.take(k));
    }
}

/// The bounds of the trimmed part of `chars[start..end]`.
fn trim_bounds(chars: &Vec<char>, start: usize, end: usize) -> (r: (usize, usize))
    requires
        start <= end <= chars.len(),
    ensures
        start <= r.0 <= r.1 <= end,
        chars@.subrange(r.0 as int, r.1 as int) == trim(chars@.subrange(start as int, end as int)),
{
    let ghost piece = chars@.subrange(start as int, end as int);
    let mut a: usize = start;
    while a < end && char_is_whitespace(chars[a])
        invariant
            start <= a <= end <= chars.len(),
            forall|j: int| start <= j < a ==> is_whitespace(#[trigger] chars@[j]),
        decreases end - a,
    {
        a += 1;
    }
    let mut b: usize = end;
    while b > a && char_is_whitespace(chars[b - 1])
        invariant
            start <= a <= b <= end <= chars.len(),
            forall|j: int| b <= j < end ==> is_whitespace(#[trigger] chars@[j]),
        decreases b - a,
    {
        b -= 1;
    }
    proof {
        assert forall|j: int| 0 <= j < a - start implies is_whitespace(#[trigger] piece[j]) by {
            assert(piece[j] == chars@[start + j]);
        }
        lemma_trim_start_at(piece, a - start);
        let rest = piece.skip(a - start);
        assert(rest =~= chars@.subrange(a as int, end as int));
        assert forall|j: int| b - a <= j < rest.len() implies is_whitespace(#[trigger] rest[j]) by {
            assert(rest[j] == chars@[a + j]);
        }
        if b > a {
            assert(rest[b - a - 1] == chars@[b - 1]);
        }
        lemma_trim_end_at(rest, b - a);
        assert(rest.take(b - a) =~= chars@.subrange(a as int, b as int));
    }
    (a, b)
}

/// Whether `s` trims to the empty text.
pub fn is_blank_text(s: &str) -> (r: bool)
    ensures
        r == is_blank(s@),
{
    let chars = chars_of(s);
    let (a, b) = trim_bounds(&chars, 0, chars.len());
    proof {
        assert(chars@.subrange(0, chars@.len() as int) =~= s@);
    }
    a == b
}

/// Whether `s` is taken for a date and time.
pub fn text_looks_like_date(s: &str) -> (r: bool)
    ensures
        r == looks_like_date(s@),
{
    let chars = chars_of(s);
    let mut found = false;
    let mut i: usize = 0;
    while i < chars.len()
        invariant
            i <= chars.len(),
            found == chars@.take(i as int).contains('T'),
        decreases chars.len() - i,
    {
        proof {
            let next = chars@.take(i as int + 1);
            assert(next =~= chars@.take(i as int).push(chars@[i as int]));
            if chars@.take(i as int).contains('T') {
                let k = choose|k: int| 0 <= k < i && chars@.take(i as int)[k] == 'T';
                assert(next[k] == 'T');
            }
            if chars@[i as int] == 'T' {
                assert(next[i as int] == 'T');
            }
            if next.contains('T') {
                let k = choose|k: int| 0 <= k < next.len() && next[k] == 'T';
                if k < i {
                    assert(chars@.take(i as int)[k] == 'T');
                }
            }
        }
        if chars[i] == 'T' {
            found = true;
        }
        i += 1;
    }
    proof {
        assert(chars@.take(chars@.len() as int) =~= s@);
    }
    found && chars.len() >= 16
}

/// The option texts of a comma-separated list, in the order in which the
/// list names them.
pub fn split_options(list: &str) -> (r: Vec<String>)
    ensures
        texts_of(r@) == option_texts(list@),
{
    let chars = chars_of(list);
    let n = chars.len();
    let mut out: Vec<String> = Vec::new();
    let ghost done: Seq<Seq<char>> = Seq::empty();
    let ghost trimmed = |piece: Seq<char>| trim(piece);
    let ghost kept = |piece: Seq<char>| piece.len() > 0;
    let mut start: usize = 0;
    let mut i: usize = 0;
    proof {
        assert(chars@.take(0) =~= Seq::<char>::empty());
        assert(split(Seq::<char>::empty(), ',') =~= done.push(chars@.subrange(0, 0)));
        assert(texts_of(out@) =~= done.map_values(trimmed).filter(kept)) by {
            reveal(Seq::filter);
        }
    }
    while i < n
        invariant
            n == chars.len(),
            chars@ == list@,
            start <= i <= n,
            trimmed == |piece: Seq<char>| trim(piece),
            kept == |piece: Seq<char>| piece.len() > 0,
            split(chars@.take(i as int), ',') == done.push(
                chars@.subrange(start as int, i as int),
            ),
            texts_of(out@) == done.map_values(trimmed).filter(kept),
        decreases n - i,
    {
        let ghost prefix = chars@.take(i as int);
        let ghost next = chars@.take(i as int + 1);
        let ghost piece = chars@.subrange(start as int, i as int);
        proof {
            assert(next.drop_last() =~= prefix);
            assert(next.last() == chars@[i as int]);
        }
        if chars[i] == ',' {
            let (a, b) = trim_bounds(&chars, start, i);
            if a < b {
                let text = list.substring_char(a, b).to_owned();
                proof {
                    assert(texts_of(out@.push(text)) =~= texts_of(out@).push(text@));
                }
                out.push(text);
            }
            proof {
                done.map_values(trimmed).lemma_filter_push(trim(piece), kept);
                assert(done.push(piece).map_values(trimmed) =~= done.map_values(trimmed).push(
                    trim(piece),
                ));
                done = done.push(piece);
                assert(chars@.subrange(i as int + 1, i as int + 1) =~= Seq::<char>::empty());
            }
            start = i + 1;
        } else {
            proof {
                let before = done.push(piece);
                assert(before.drop_last() =~= done);
                assert(piece.push(chars@[i as int]) =~= chars@.subrange(
                    start as int,
                    i as int + 1,
                ));
            }
        }
        i += 1;
    }
    let ghost piece = chars@.subrange(start as int, n as int);
    let (a, b) = trim_bounds(&chars, start, n);
    if a < b {
        let text = list.substring_char(a, b).to_owned();
        proof {
            assert(texts_of(out@.push(text)) =~= texts_of(out@).push(text@));
        }
        out.push(text);
    }
    proof {
        assert(chars@.take(n as int) =~= list@);
        done.map_values(trimmed).lemma_filter_push(trim(piece), kept);
        assert(done.push(piece).map_values(trimmed) =~= done.map_values(trimmed).push(
            trim(piece),
        ));
    }
    out
}

/// `a` stands before `b` in the dictionary order of their characters'
/// code points; a text stands before every text that it begins.
pub open spec fn text_lt(a: Seq<char>, b: Seq<char>) -> bool
    decreases a.len(),
{
    if b.len() == 0 {
        false
    } else if a.len() == 0 {
        true
    } else if (a[0] as u32) < (b[0] as u32) {
        true
    } else if (b[0] as u32) < (a[0] as u32) {
        false
    } else {
        text_lt(a.drop_first(), b.drop_first())
    }
}

/// The dictionary order is a strict weak order.
pub proof fn lemma_text_lt_laws(a: Seq<char>, b: Seq<char>, c: Seq<char>)
    ensures
        !(text_lt(a, b) && text_lt(b, a)),
        text_lt(a, b) ==> text_lt(a, c) || text_lt(c, b),
    decreases a.len(),
{
    if a.len() > 0 && b.len() > 0 {
        if a[0] as u32 == b[0] as u32 {
            if c.len() > 0 && c[0] as u32 == a[0] as u32 {
                lemma_text_lt_laws(a.drop_first(), b.drop_first(), c.drop_first());
            } else {
                lemma_text_lt_laws(a.drop_first(), b.drop_first(), Seq::empty());
            }
        }
    }
}

/// Whether `a` stands before `b` in the dictionary order.
pub fn text_before(a: &str, b: &str) -> (r: bool)
    ensures
        r == text_lt(a@, b@),
{
    let x = chars_of(a);
    let y = chars_of(b);
    let mut i: usize = 0;
    proof {
        assert(x@.skip(0) =~= x@);
        assert(y@.skip(0) =~= y@);
    }
    while i < x.len() && i < y.len()
        invariant
            i <= x.len(),
            i <= y.len(),
            x@ == a@,
            y@ == b@,
            text_lt(x@, y@) == text_lt(x@.skip(i as int), y@.skip(i as int)),
        decreases x.len() - i,
    {
        let p: u32 = x[i] as u32;
        let q: u32 = y[i] as u32;
        proof {
            assert(x@.skip(i as int)[0] == x@[i as int]);
            assert(y@.skip(i as int)[0] == y@[i as int]);
            assert(x@.skip(i as int).drop_first() =~= x@.skip(i as int + 1));
            assert(y@.skip(i as int).drop_first() =~= y@.skip(i as int + 1));
        }
        if p < q {
            return true;
        }
        if q < p {
            return false;
        }
        i += 1;
    }
    i < y.len()
}

} // verus!

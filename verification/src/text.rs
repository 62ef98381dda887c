//! Small verified string operations that the extraction logic is built on:
//! case folding (through the standard library), whitespace trimming,
//! decimal rendering of integers, and title prefixing.

use vstd::prelude::*;

verus! {

/// What `str::to_lowercase` returns for a given sequence of characters.
pub uninterp spec fn lower_of(s: Seq<char>) -> Seq<char>;

/// Relies on `str::to_lowercase`: the result depends on the characters
/// alone, and an empty string stays empty.
#[verifier::external_body]
pub(crate) fn lowercase(s: &str) -> (r: String)
    ensures
        r@ == lower_of(s@),
        s@.len() == 0 ==> r@.len() == 0,
{
    s.to_lowercase()
}

/// The characters with the Unicode `White_Space` property, the set that
/// `str::trim` strips.
pub open spec fn is_space_char(c: char) -> bool {
    c == ' ' || c == '\t' || c == '\n' || c == '\r' || c == '\u{b}' || c == '\u{c}'
        || c == '\u{85}' || c == '\u{a0}' || c == '\u{1680}' || (0x2000 <= c as int
        && c as int <= 0x200a) || c == '\u{2028}' || c == '\u{2029}' || c == '\u{202f}'
        || c == '\u{205f}' || c == '\u{3000}'
}

pub fn is_space(c: char) -> (r: bool)
    ensures
        r == is_space_char(c),
{
    let u = c as u32;
    c == ' ' || c == '\t' || c == '\n' || c == '\r' || c == '\u{b}' || c == '\u{c}'
        || c == '\u{85}' || c == '\u{a0}' || c == '\u{1680}' || (0x2000 <= u && u <= 0x200a)
        || c == '\u{2028}' || c == '\u{2029}' || c == '\u{202f}' || c == '\u{205f}'
        || c == '\u{3000}'
}

pub open spec fn trim_front(s: Seq<char>) -> Seq<char>
    decreases s.len(),
{
    if s.len() == 0 {
        s
    } else if is_space_char(s[0]) {
        trim_front(s.drop_first())
    } else {
        s
    }
}

pub open spec fn trim_back(s: Seq<char>) -> Seq<char>
    decreases s.len(),
{
    if s.len() == 0 {
        s
    } else if is_space_char(s.last()) {
        trim_back(s.drop_last())
    } else {
        s
    }
}

/// The sequence with leading and trailing whitespace removed, as
/// `str::trim` computes it.
pub open spec fn trim_of(s: Seq<char>) -> Seq<char> {
    trim_back(trim_front(s))
}

/// Strips leading and trailing whitespace.
pub fn trim_str(s: &str) -> (r: String)
    ensures
        r@ == trim_of(s@),
{
    let n = s.unicode_len();
    proof {
        assert(s@.subrange(0, n as int) =~= s@);
    }
    let mut start: usize = 0;
    while start < n && is_space(s.get_char(start))
        invariant
            n == s@.len(),
            start <= n,
            trim_front(s@) == trim_front(s@.subrange(start as int, n as int)),
        decreases n - start,
    {
        proof {
            let sub = s@.subrange(start as int, n as int);
            assert(sub.drop_first() =~= s@.subrange(start as int + 1, n as int));
        }
        start = start + 1;
    }
    let mut end: usize = n;
    while end > start && is_space(s.get_char(end - 1))
        invariant
            n == s@.len(),
            start <= end <= n,
            trim_front(s@) == trim_front(s@.subrange(start as int, n as int)),
            start == n || !is_space_char(s@[start as int]),
            trim_back(s@.subrange(start as int, n as int)) == trim_back(
                s@.subrange(start as int, end as int),
            ),
        decreases end,
    {
        proof {
            let sub = s@.subrange(start as int, end as int);
            assert(sub.drop_last() =~= s@.subrange(start as int, end as int - 1));
        }
        end = end - 1;
    }
    let sub = s.substring_char(start, end);
    let r = sub.to_owned();
    proof {
        if start == n {
            assert(s@.subrange(start as int, n as int) =~= Seq::<char>::empty());
            assert(s@.subrange(start as int, end as int) =~= Seq::<char>::empty());
        } else {
            let front = s@.subrange(start as int, n as int);
            assert(front[0] == s@[start as int]);
            assert(trim_front(s@) == front);
            if end == start {
                assert(s@.subrange(start as int, end as int) =~= Seq::<char>::empty());
            } else {
                let kept = s@.subrange(start as int, end as int);
                assert(kept.last() == s@[end as int - 1]);
                assert(trim_back(kept) == kept);
            }
        }
    }
    r
}

/// The decimal digit character for a value below ten.
pub open spec fn dec_digit(d: int) -> char {
    if d == 0 {
        '0'
    } else if d == 1 {
        '1'
    } else if d == 2 {
        '2'
    } else if d == 3 {
        '3'
    } else if d == 4 {
        '4'
    } else if d == 5 {
        '5'
    } else if d == 6 {
        '6'
    } else if d == 7 {
        '7'
    } else if d == 8 {
        '8'
    } else {
        '9'
    }
}

/// The decimal rendering of a non-negative integer, most significant
/// digit first, without leading zeroes.
pub open spec fn dec_str(n: int) -> Seq<char>
    decreases n,
{
    if n < 10 {
        seq![dec_digit(n)]
    } else {
        dec_str(n / 10).push(dec_digit(n % 10))
    }
}

fn digit_string(d: u64) -> (r: String)
    requires
        d < 10,
    ensures
        r@ == seq![dec_digit(d as int)],
{
    proof {
        reveal_strlit("0");
        reveal_strlit("1");
        reveal_strlit("2");
        reveal_strlit("3");
        reveal_strlit("4");
        reveal_strlit("5");
        reveal_strlit("6");
        reveal_strlit("7");
        reveal_strlit("8");
        reveal_strlit("9");
    }
    let r = if d == 0 {
        "0".to_owned()
    } else if d == 1 {
        "1".to_owned()
    } else if d == 2 {
        "2".to_owned()
    } else if d == 3 {
        "3".to_owned()
    } else if d == 4 {
        "4".to_owned()
    } else if d == 5 {
        "5".to_owned()
    } else if d == 6 {
        "6".to_owned()
    } else if d == 7 {
        "7".to_owned()
    } else if d == 8 {
        "8".to_owned()
    } else {
        "9".to_owned()
    };
    proof {
        assert(r@ =~= seq![dec_digit(d as int)]);
    }
    r
}

/// Renders a number in decimal.
pub fn u64_to_string(n: u64) -> (r: String)
    ensures
        r@ == dec_str(n as int),
    decreases n,
{
    if n < 10 {
        digit_string(n)
    } else {
        let mut r = u64_to_string(n / 10);
        let d = digit_string(n % 10);
        r.append(d.as_str());
        proof {
            assert(r@ =~= dec_str(n as int));
        }
        r
    }
}

/// Renders a number in decimal.
pub fn usize_to_string(n: usize) -> (r: String)
    ensures
        r@ == dec_str(n as int),
{
    u64_to_string(n as u64)
}

/// The lower-case form of an ASCII letter; any other character stays as
/// it is.
pub open spec fn ascii_lower_char(c: char) -> char {
    let u = (c as u32) as int;
    if 65 <= u <= 90 {
        ((u + 32) as u8) as char
    } else {
        c
    }
}

/// The sequence with every ASCII letter lowered.
pub open spec fn ascii_lower_seq(s: Seq<char>) -> Seq<char> {
    Seq::new(s.len(), |i: int| ascii_lower_char(s[i]))
}

/// Whether `s`, with its ASCII letters lowered, equals `t`.
pub fn ascii_lower_eq(s: &str, t: &str) -> (b: bool)
    ensures
        b == (ascii_lower_seq(s@) == t@),
{
    let n = s.unicode_len();
    let m = t.unicode_len();
    if n != m {
        proof {
            assert(ascii_lower_seq(s@).len() == s@.len());
        }
        return false;
    }
    let mut i: usize = 0;
    while i < n
        invariant
            i <= n,
            n == s@.len(),
            n == t@.len(),
            forall|j: int| 0 <= j < i ==> ascii_lower_seq(s@)[j] == t@[j],
        decreases n - i,
    {
        let c = s.get_char(i);
        let d = t.get_char(i);
        let u = c as u32;
        let lowered: char = if 65 <= u && u <= 90 {
            ((u + 32) as u8) as char
        } else {
            c
        };
        proof {
            assert(lowered == ascii_lower_char(s@[i as int]));
        }
        if lowered != d {
            proof {
                assert(ascii_lower_seq(s@)[i as int] != t@[i as int]);
            }
            return false;
        }
        i = i + 1;
    }
    proof {
        assert(ascii_lower_seq(s@) =~= t@);
    }
    true
}

/// The pieces of a sequence split at every comma: one more piece than
/// there are commas, each possibly empty.
pub open spec fn spec_split_commas(s: Seq<char>) -> Seq<Seq<char>>
    decreases s.len(),
{
    if s.len() == 0 {
        seq![Seq::<char>::empty()]
    } else if s[0] == ',' {
        seq![Seq::<char>::empty()] + spec_split_commas(s.drop_first())
    } else {
        let rest = spec_split_commas(s.drop_first());
        seq![seq![s[0]] + rest[0]] + rest.drop_first()
    }
}

/// Splitting always yields at least one piece.
proof fn lemma_split_commas_len(s: Seq<char>)
    ensures
        spec_split_commas(s).len() >= 1,
    decreases s.len(),
{
    if s.len() > 0 {
        lemma_split_commas_len(s.drop_first());
    }
}

proof fn lemma_split_commas_no_comma(s: Seq<char>)
    requires
        forall|j: int| 0 <= j < s.len() ==> s[j] != ',',
    ensures
        spec_split_commas(s) == seq![s],
    decreases s.len(),
{
    if s.len() == 0 {
        assert(s =~= Seq::<char>::empty());
    } else {
        lemma_split_commas_no_comma(s.drop_first());
        assert(seq![s[0]] + s.drop_first() =~= s);
        assert(spec_split_commas(s) =~= seq![s]);
    }
}

proof fn lemma_split_commas_step(s: Seq<char>, k: int)
    requires
        0 <= k < s.len(),
        s[k] == ',',
        forall|j: int| 0 <= j < k ==> s[j] != ',',
    ensures
        spec_split_commas(s) == seq![s.take(k)] + spec_split_commas(
            s.subrange(k + 1, s.len() as int),
        ),
    decreases k,
{
    if k == 0 {
        assert(s.take(0) =~= Seq::<char>::empty());
        assert(s.drop_first() =~= s.subrange(1, s.len() as int));
        assert(spec_split_commas(s) =~= seq![s.take(0)] + spec_split_commas(
            s.subrange(1, s.len() as int),
        ));
    } else {
        let d = s.drop_first();
        assert(forall|j: int| 0 <= j < k - 1 ==> d[j] != ',');
        lemma_split_commas_step(d, k - 1);
        lemma_split_commas_len(d.subrange(k, d.len() as int));
        assert(seq![s[0]] + d.take(k - 1) =~= s.take(k));
        assert(d.subrange(k, d.len() as int) =~= s.subrange(k + 1, s.len() as int));
        let rest = spec_split_commas(d);
        assert(rest[0] == d.take(k - 1));
        assert(rest.drop_first() =~= spec_split_commas(s.subrange(k + 1, s.len() as int)));
        assert(spec_split_commas(s) =~= seq![s.take(k)] + spec_split_commas(
            s.subrange(k + 1, s.len() as int),
        ));
    }
}

/// Splits a string at every comma, as `str::split(',')` does: one piece
/// more than there are commas, each possibly empty.
pub fn split_commas(s: &str) -> (r: Vec<String>)
    ensures
        r.deep_view() == spec_split_commas(s@),
{
    let n = s.unicode_len();
    let mut out: Vec<String> = Vec::new();
    proof {
        assert(s@.subrange(0, n as int) =~= s@);
        assert(out.deep_view() =~= Seq::<Seq<char>>::empty());
        assert(Seq::<Seq<char>>::empty() + spec_split_commas(s@) =~= spec_split_commas(s@));
    }
    let mut start: usize = 0;
    let mut i: usize = 0;
    while i < n
        invariant
            start <= i <= n,
            n == s@.len(),
            forall|j: int| start <= j < i ==> s@[j] != ',',
            spec_split_commas(s@) == out.deep_view() + spec_split_commas(
                s@.subrange(start as int, n as int),
            ),
        decreases n - i,
    {
        if s.get_char(i) == ',' {
            let piece = s.substring_char(start, i).to_owned();
            let ghost before = out.deep_view();
            proof {
                let tail = s@.subrange(start as int, n as int);
                assert(forall|j: int| 0 <= j < i - start ==> tail[j] != ',');
                assert(tail[i - start] == ',');
                lemma_split_commas_step(tail, i - start);
                assert(tail.take(i - start) =~= s@.subrange(start as int, i as int));
                assert(tail.subrange(i - start + 1, tail.len() as int) =~= s@.subrange(
                    i as int + 1,
                    n as int,
                ));
            }
            out.push(piece);
            proof {
                assert(out.deep_view() =~= before + seq![piece@]);
                assert((before + seq![piece@]) + spec_split_commas(
                    s@.subrange(i as int + 1, n as int),
                ) =~= before + (seq![piece@] + spec_split_commas(
                    s@.subrange(i as int + 1, n as int),
                )));
            }
            start = i + 1;
        }
        i = i + 1;
    }
    let last = s.substring_char(start, n).to_owned();
    let ghost before = out.deep_view();
    proof {
        let tail = s@.subrange(start as int, n as int);
        assert(forall|j: int| 0 <= j < tail.len() ==> tail[j] != ',');
        lemma_split_commas_no_comma(tail);
    }
    out.push(last);
    proof {
        assert(out.deep_view() =~= before + seq![last@]);
        assert(out.deep_view() =~= spec_split_commas(s@));
    }
    out
}

/// The title with the optional static prefix applied: `"<prefix> <raw>"`
/// with a single separating space when a prefix is configured, the raw
/// title verbatim otherwise.
pub open spec fn spec_prefixed(prefix: Option<Seq<char>>, raw: Seq<char>) -> Seq<char> {
    match prefix {
        Some(p) => p + " "@ + raw,
        None => raw,
    }
}

/// Prepends the configured prefix, if any, to a raw title.
pub fn apply_prefix(prefix: &Option<String>, raw: String) -> (r: String)
    ensures
        r@ == spec_prefixed(prefix.deep_view(), raw@),
{
    match prefix {
        Some(p) => {
            let mut t = p.clone();
            t.append(" ");
            t.append(raw.as_str());
            t
        },
        None => raw,
    }
}

} // verus!

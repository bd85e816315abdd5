//! The library's error type, and the parser of number lists given on the
//! command line.

use vstd::prelude::*;
use vstd::string::*;

verus! {

/// An error with a message for the user.
#[derive(Clone, Debug)]
pub struct Error {
    pub err_msg: String,
}

impl Error {
    /// The message of the error.
    pub fn to_string(&self) -> (r: String)
        ensures
            r@ == self.err_msg@,
    {
        self.err_msg.clone()
    }
}

/// Whether `c` is a decimal digit.
pub open spec fn is_digit(c: char) -> bool {
    '0' <= c && c <= '9'
}

/// The number that the decimal digits `s` write.
pub open spec fn digits_value(s: Seq<char>) -> int
    decreases s.len(),
{
    if s.len() == 0 {
        0
    } else {
        digits_value(s.drop_last()) * 10 + (s.last() as int - '0' as int)
    }
}

/// Whether every character of `s` is a decimal digit.
pub open spec fn all_digits(s: Seq<char>) -> bool {
    forall|i: int| 0 <= i < s.len() ==> is_digit(#[trigger] s[i])
}

/// `s` without a leading `+`.
pub open spec fn unsigned_part(s: Seq<char>) -> Seq<char> {
    if s.len() > 0 && s[0] == '+' {
        s.subrange(1, s.len() as int)
    } else {
        s
    }
}

/// The number that `s` writes as `u32::from_str` reads it: an optional `+`,
/// then one or more decimal digits, of a value that fits in a `u32`.
pub open spec fn parse_u32(s: Seq<char>) -> Option<u32> {
    let d = unsigned_part(s);
    if d.len() > 0 && all_digits(d) && digits_value(d) <= u32::MAX {
        Some(digits_value(d) as u32)
    } else {
        None
    }
}

/// The pieces of `s` between the occurrences of `c`, as `str::split` gives
/// them.
pub open spec fn split_char(s: Seq<char>, c: char) -> Seq<Seq<char>>
    decreases s.len(),
{
    if s.len() == 0 {
        seq![Seq::empty()]
    } else {
        let rest = split_char(s.drop_last(), c);
        if s.last() == c {
            rest.push(Seq::empty())
        } else {
            rest.update(rest.len() - 1, rest.last().push(s.last()))
        }
    }
}

/// The first index at or after `start` where `pat` occurs in `s`, or the
/// length of `s` where it does not.
pub open spec fn find_from(s: Seq<char>, pat: Seq<char>, start: int) -> int
    decreases s.len() - start,
{
    if start < 0 || start >= s.len() || start + pat.len() > s.len() {
        s.len() as int
    } else if s.subrange(start, start + pat.len()) == pat {
        start
    } else {
        find_from(s, pat, start + 1)
    }
}

/// Whether `pat` occurs in `s`.
pub open spec fn contains(s: Seq<char>, pat: Seq<char>) -> bool {
    find_from(s, pat, 0) < s.len()
}

/// The numbers of the pieces, or the first piece that is not a number.
pub open spec fn parse_all(pieces: Seq<Seq<char>>) -> Result<Seq<u32>, Seq<char>>
    decreases pieces.len(),
{
    if pieces.len() == 0 {
        Ok(Seq::empty())
    } else {
        match parse_all(pieces.drop_last()) {
            Err(bad) => Err(bad),
            Ok(nums) => match parse_u32(pieces.last()) {
                Some(n) => Ok(nums.push(n)),
                None => Err(pieces.last()),
            },
        }
    }
}

/// The numbers from `first` to `last`, both included.
pub open spec fn range_inclusive(first: u32, last: u32) -> Seq<u32> {
    Seq::new(
        if first <= last {
            (last - first + 1) as nat
        } else {
            0
        },
        |k: int| (first + k) as u32,
    )
}

/// The message for a number that cannot be read.
pub open spec fn num_parse_error_msg(s: Seq<char>) -> Seq<char> {
    "Number has an incorrect format '"@ + s + "'"@
}

/// The message for a range with an end that cannot be read.
pub open spec fn range_parse_error_msg(s: Seq<char>) -> Seq<char> {
    "Range boundaries have an incorrect format '"@ + s + "'"@
}

/// What `parse_nums` gives for `s`: nothing for an empty string; for a list
/// separated by commas, each of its numbers; for `a..b`, the numbers from `a`
/// to `b` (pieces after a second `..` are ignored); otherwise the one number
/// that `s` writes. The error is the message for what could not be read.
pub open spec fn parse_nums_spec(s: Seq<char>) -> Result<Seq<u32>, Seq<char>> {
    if s.len() == 0 {
        Ok(Seq::empty())
    } else if contains(s, seq![',']) {
        match parse_all(split_char(s, ',')) {
            Ok(nums) => Ok(nums),
            Err(bad) => Err(num_parse_error_msg(bad)),
        }
    } else if contains(s, seq!['.', '.']) {
        let i = find_from(s, seq!['.', '.'], 0);
        let j = find_from(s, seq!['.', '.'], i + 2);
        match (parse_u32(s.subrange(0, i)), parse_u32(s.subrange(i + 2, j))) {
            (Some(a), Some(b)) => Ok(range_inclusive(a, b)),
            _ => Err(range_parse_error_msg(s)),
        }
    } else {
        match parse_u32(s) {
            Some(n) => Ok(seq![n]),
            None => Err(num_parse_error_msg(s)),
        }
    }
}

/// `find_from` lies between `start` and the length of `s`.
proof fn lemma_find_from_bounds(s: Seq<char>, pat: Seq<char>, start: int)
    requires
        0 <= start <= s.len(),
    ensures
        start <= find_from(s, pat, start) <= s.len(),
        find_from(s, pat, start) < s.len() ==> find_from(s, pat, start) + pat.len() <= s.len(),
    decreases s.len() - start,
{
    if start < s.len() && start + pat.len() <= s.len() && s.subrange(start, start + pat.len()) != pat {
        lemma_find_from_bounds(s, pat, start + 1);
    }
}

/// A piece that is not a number stays the first such piece whatever follows.
proof fn lemma_parse_all_err_extends(p: Seq<Seq<char>>, q: Seq<Seq<char>>)
    requires
        parse_all(p) is Err,
    ensures
        parse_all(p + q) == parse_all(p),
    decreases q.len(),
{
    if q.len() == 0 {
        assert(p + q =~= p);
    } else {
        lemma_parse_all_err_extends(p, q.drop_last());
        assert((p + q).drop_last() =~= p + q.drop_last());
    }
}

/// The views of a list of string slices.
pub open spec fn slice_views(v: Seq<&str>) -> Seq<Seq<char>> {
    v.map_values(|p: &str| p@)
}

/// The message for a number that cannot be read.
pub fn format_num_parse_error(s: &str) -> (r: String)
    ensures
        r@ == num_parse_error_msg(s@),
{
    let mut r = String::from_str("Number has an incorrect format '");
    r.append(s);
    r.append("'");
    r
}

/// Reads `s` as `u32::from_str` does.
pub fn try_parse_num(s: &str) -> (r: Result<u32, Error>)
    ensures
        parse_u32(s@) matches Some(n) ==> r == Ok::<u32, Error>(n),
        parse_u32(s@) is None ==> r is Err && r->Err_0.err_msg@ == num_parse_error_msg(s@),
{
    let len = s.unicode_len();
    let mut start: usize = 0;
    if len > 0 && s.get_char(0) == '+' {
        start = 1;
    }
    let ghost d = unsigned_part(s@);
    assert(d =~= s@.subrange(start as int, len as int));
    if start == len {
        return Err(Error { err_msg: format_num_parse_error(s) });
    }
    let mut value: u64 = 0;
    let mut too_big = false;
    let mut i: usize = start;
    while i < len
        invariant
            start <= i <= len,
            len == s@.len(),
            d == s@.subrange(start as int, len as int),
            d == unsigned_part(s@),
            forall|j: int| start <= j < i ==> is_digit(#[trigger] s@[j]),
            !too_big ==> value == digits_value(s@.subrange(start as int, i as int)),
            too_big ==> digits_value(s@.subrange(start as int, i as int)) > u32::MAX,
            value <= u32::MAX,
            digits_value(s@.subrange(start as int, i as int)) >= 0,
        decreases len - i,
    {
        let c = s.get_char(i);
        proof {
            assert(d[i - start] == c);
        }
        if !('0' <= c && c <= '9') {
            proof {
                assert(!is_digit(d[i - start]));
                assert(!all_digits(d));
            }
            return Err(Error { err_msg: format_num_parse_error(s) });
        }
        let digit = (c as u32 - '0' as u32) as u64;
        proof {
            assert(s@.subrange(start as int, i + 1).drop_last() =~= s@.subrange(start as int, i as int));
        }
        if !too_big {
            let next = value * 10 + digit;
            if next > u32::MAX as u64 {
                too_big = true;
            } else {
                value = next;
            }
        }
        i = i + 1;
    }
    proof {
        assert(s@.subrange(start as int, len as int) == d);
        assert forall|m: int| 0 <= m < d.len() implies is_digit(#[trigger] d[m]) by {
            assert(d[m] == s@[start + m]);
        }
        assert(all_digits(d));
    }
    if too_big {
        Err(Error { err_msg: format_num_parse_error(s) })
    } else {
        Ok(value as u32)
    }
}

/// The first index at or after `start` where `pat` occurs in `s`, or the
/// length of `s` where it does not.
fn find_str(s: &str, pat: &str, start: usize) -> (r: usize)
    requires
        start <= s@.len(),
    ensures
        r == find_from(s@, pat@, start as int),
{
    let len = s.unicode_len();
    let plen = pat.unicode_len();
    let mut k: usize = start;
    while k < len
        invariant
            start <= k <= len,
            len == s@.len(),
            plen == pat@.len(),
            find_from(s@, pat@, start as int) == find_from(s@, pat@, k as int),
        decreases len - k,
    {
        if plen > len - k {
            return len;
        }
        let mut j: usize = 0;
        let mut same = true;
        while j < plen && same
            invariant
                j <= plen,
                k + plen <= len,
                len == s@.len(),
                plen == pat@.len(),
                same ==> forall|m: int| 0 <= m < j ==> s@[k + m] == pat@[m],
                !same ==> s@.subrange(k as int, k + plen) != pat@,
            decreases plen - j,
        {
            if s.get_char(k + j) != pat.get_char(j) {
                proof {
                    assert(s@.subrange(k as int, k + plen)[j as int] != pat@[j as int]);
                }
                same = false;
                j = plen;
            } else {
                j = j + 1;
            }
        }
        if same {
            proof {
                assert(s@.subrange(k as int, k + plen) =~= pat@);
            }
            return k;
        }
        k = k + 1;
    }
    len
}

/// The pieces of `s` between the occurrences of `c`.
fn split_at_char(s: &str, c: char) -> (r: Vec<&str>)
    ensures
        slice_views(r@) == split_char(s@, c),
{
    let len = s.unicode_len();
    let mut r: Vec<&str> = Vec::new();
    let mut start: usize = 0;
    let mut k: usize = 0;
    proof {
        assert(s@.subrange(0, 0) =~= Seq::<char>::empty());
        assert(slice_views(r@) =~= Seq::<Seq<char>>::empty());
        assert(split_char(s@.subrange(0, 0), c) =~~= slice_views(r@) + seq![s@.subrange(0, 0)]);
    }
    while k < len
        invariant
            start <= k <= len,
            len == s@.len(),
            split_char(s@.subrange(0, k as int), c) == slice_views(r@) + seq![s@.subrange(start as int, k as int)],
        decreases len - k,
    {
        let ch = s.get_char(k);
        let ghost before = slice_views(r@);
        proof {
            assert(s@.subrange(0, k + 1).drop_last() =~= s@.subrange(0, k as int));
            assert(s@.subrange(0, k + 1).last() == ch);
        }
        if ch == c {
            let piece = s.substring_char(start, k);
            r.push(piece);
            start = k + 1;
            proof {
                assert(slice_views(r@) =~= before.push(piece@));
                assert(s@.subrange(start as int, k + 1) =~= Seq::<char>::empty());
                assert(split_char(s@.subrange(0, k + 1), c) =~~= slice_views(r@) + seq![s@.subrange(start as int, k + 1)]);
            }
        } else {
            proof {
                assert(s@.subrange(start as int, k as int).push(ch) =~= s@.subrange(start as int, k + 1));
                assert(split_char(s@.subrange(0, k + 1), c) =~~= slice_views(r@) + seq![s@.subrange(start as int, k + 1)]);
            }
        }
        k = k + 1;
    }
    let ghost before = slice_views(r@);
    let last = s.substring_char(start, len);
    r.push(last);
    proof {
        assert(s@.subrange(0, len as int) =~= s@);
        assert(slice_views(r@) =~= before.push(last@));
        assert(slice_views(r@) =~~= split_char(s@, c));
    }
    r
}

/// Reads a list of numbers: empty, a list separated by commas, a range
/// `a..b` with both ends included, or one number.
pub fn parse_nums(s: &str) -> (r: Result<Box<Vec<u32>>, Error>)
    ensures
        parse_nums_spec(s@) matches Ok(nums) ==> r is Ok && r->Ok_0@ == nums,
        parse_nums_spec(s@) matches Err(msg) ==> r is Err && r->Err_0.err_msg@ == msg,
{
    let len = s.unicode_len();
    if len == 0 {
        let v: Vec<u32> = Vec::new();
        assert(v@ =~= Seq::<u32>::empty());
        return Ok(Box::new(v));
    }
    proof {
        reveal_strlit(",");
        reveal_strlit("..");
        assert(","@ =~= seq![',']);
        assert(".."@ =~= seq!['.', '.']);
    }
    let comma = find_str(s, ",", 0);
    if comma < len {
        let pieces = split_at_char(s, ',');
        let ghost views = slice_views(pieces@);
        let mut nums: Vec<u32> = Vec::new();
        let mut i: usize = 0;
        proof {
            assert(views.subrange(0, 0) =~= Seq::<Seq<char>>::empty());
        }
        while i < pieces.len()
            invariant
                i <= pieces@.len(),
                views == slice_views(pieces@),
                views == split_char(s@, ','),
                s@.len() > 0,
                contains(s@, seq![',']),
                parse_all(views.subrange(0, i as int)) == Ok::<Seq<u32>, Seq<char>>(nums@),
            decreases pieces@.len() - i,
        {
            let piece = pieces[i];
            proof {
                assert(views.subrange(0, i + 1).drop_last() =~= views.subrange(0, i as int));
                assert(views[i as int] == piece@);
            }
            match try_parse_num(piece) {
                Ok(n) => {
                    nums.push(n);
                },
                Err(e) => {
                    proof {
                        assert(parse_u32(piece@) is None);
                        assert(views.subrange(0, i + 1).last() == piece@);
                        assert(parse_all(views.subrange(0, i + 1)) == Err::<Seq<u32>, Seq<char>>(piece@));
                        lemma_parse_all_err_extends(views.subrange(0, i + 1), views.subrange(i + 1, views.len() as int));
                        assert(views.subrange(0, i + 1) + views.subrange(i + 1, views.len() as int) =~= views);
                    }
                    return Err(e);
                },
            }
            i = i + 1;
        }
        proof {
            assert(views.subrange(0, views.len() as int) =~= views);
        }
        return Ok(Box::new(nums));
    }
    let dots = find_str(s, "..", 0);
    if dots < len {
        proof {
            lemma_find_from_bounds(s@, seq!['.', '.'], 0);
            lemma_find_from_bounds(s@, seq!['.', '.'], dots + 2);
        }
        let end = find_str(s, "..", dots + 2);
        let first = try_parse_num(s.substring_char(0, dots));
        let last = try_parse_num(s.substring_char(dots + 2, end));
        match (first, last) {
            (Ok(a), Ok(b)) => {
                let mut v: Vec<u32> = Vec::new();
                let mut k: u64 = a as u64;
                if a <= b {
                    while k <= b as u64
                        invariant
                            a <= b,
                            a <= k <= b as u64 + 1,
                            v@ =~= Seq::new((k - a) as nat, |m: int| (a + m) as u32),
                        decreases b as u64 + 1 - k,
                    {
                        v.push(k as u32);
                        k = k + 1;
                    }
                }
                proof {
                    assert(v@ =~= range_inclusive(a, b));
                }
                return Ok(Box::new(v));
            },
            _ => {
                let mut msg = String::from_str("Range boundaries have an incorrect format '");
                msg.append(s);
                msg.append("'");
                return Err(Error { err_msg: msg });
            },
        }
    }
    match try_parse_num(s) {
        Ok(n) => {
            let mut v: Vec<u32> = Vec::new();
            v.push(n);
            assert(v@ =~= seq![n]);
            Ok(Box::new(v))
        },
        Err(e) => Err(e),
    }
}

} // verus!

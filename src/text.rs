use vstd::prelude::*;
use vstd::string::*;

verus! {

/// Whether two texts hold the same characters.
pub fn same_text(a: &str, b: &str) -> (r: bool)
    ensures
        r == (a@ == b@),
{
    let n = a.unicode_len();
    if n != b.unicode_len() {
        return false;
    }
    let mut i: usize = 0;
    while i < n
        invariant
            n == a@.len(),
            n == b@.len(),
            i <= n,
            forall|j: int| 0 <= j < i ==> a@[j] == b@[j],
        decreases n - i,
    {
        if a.get_char(i) != b.get_char(i) {
            return false;
        }
        i += 1;
    }
    proof {
        assert(a@ =~= b@);
    }
    true
}

/// Splitting `s` at each `/`: the non-empty pieces already closed by a slash,
/// and the piece that is still open at the end of `s`.
pub open spec fn split_state(s: Seq<char>) -> (Seq<Seq<char>>, Seq<char>)
    decreases s.len(),
{
    if s.len() == 0 {
        (Seq::empty(), Seq::empty())
    } else {
        let (done, open) = split_state(s.drop_last());
        if s.last() == '/' {
            (if open.len() > 0 { done.push(open) } else { done }, Seq::empty())
        } else {
            (done, open.push(s.last()))
        }
    }
}

/// The non-empty pieces of `s` between slashes, in order.
pub open spec fn spec_path_segments(s: Seq<char>) -> Seq<Seq<char>> {
    let (done, open) = split_state(s);
    if open.len() > 0 { done.push(open) } else { done }
}

/// The view of each string of a sequence.
pub open spec fn views(v: Seq<String>) -> Seq<Seq<char>> {
    v.map_values(|s: String| s@)
}

/// The non-empty pieces of a request path between slashes.
pub fn path_segments(url: &str) -> (r: Vec<String>)
    ensures
        views(r@) == spec_path_segments(url@),
{
    let n = url.unicode_len();
    let mut segments: Vec<String> = Vec::new();
    let mut start: usize = 0;
    let mut i: usize = 0;
    while i < n
        invariant
            n == url@.len(),
            start <= i <= n,
            (views(segments@), url@.subrange(start as int, i as int)) == split_state(url@.take(i as int)),
        decreases n - i,
    {
        let c = url.get_char(i);
        proof {
            assert(url@.take(i + 1).drop_last() =~= url@.take(i as int));
            assert(url@.take(i + 1).last() == c);
        }
        if c == '/' {
            if start < i {
                let piece = url.substring_char(start, i).to_owned();
                proof {
                    assert(views(segments@.push(piece)) =~= views(segments@).push(piece@));
                }
                segments.push(piece);
            }
            start = i + 1;
            proof {
                assert(url@.subrange(start as int, start as int) =~= Seq::<char>::empty());
            }
        } else {
            proof {
                assert(url@.subrange(start as int, i + 1) =~= url@.subrange(start as int, i as int).push(c));
            }
        }
        i += 1;
    }
    proof {
        assert(url@.take(n as int) =~= url@);
    }
    if start < n {
        let piece = url.substring_char(start, n).to_owned();
        proof {
            assert(views(segments@.push(piece)) =~= views(segments@).push(piece@));
        }
        segments.push(piece);
    }
    segments
}

} // verus!

verus! {

/// The lowercase hexadecimal digit of `d`, below 16.
pub open spec fn hex_digit(d: int) -> char {
    seq!['0', '1', '2', '3', '4', '5', '6', '7', '8', '9', 'a', 'b', 'c', 'd', 'e', 'f'][d]
}

/// The lowercase hexadecimal digits of `n`, without leading zeros.
pub open spec fn hex_digits(n: nat) -> Seq<char>
    decreases n,
{
    if n < 16 {
        seq![hex_digit(n as int)]
    } else {
        hex_digits(n / 16).push(hex_digit((n % 16) as int))
    }
}

/// `c` escaped as `char::escape_default` does: tab, carriage return and line feed as
/// `\t`, `\r` and `\n`; a backslash and both quotes behind a backslash; the other
/// printable ASCII characters as they are; any other character as `\u{…}` with its
/// code in hexadecimal.
pub open spec fn escaped_char(c: char) -> Seq<char> {
    if c == '\t' {
        seq!['\\', 't']
    } else if c == '\r' {
        seq!['\\', 'r']
    } else if c == '\n' {
        seq!['\\', 'n']
    } else if c == '\\' || c == '\'' || c == '"' {
        seq!['\\', c]
    } else if ' ' <= c <= '~' {
        seq![c]
    } else {
        seq!['\\', 'u', '{'] + hex_digits(c as nat) + seq!['}']
    }
}

/// The text of `s` with each character escaped as `char::escape_default` does.
pub open spec fn escaped(s: Seq<char>) -> Seq<char>
    decreases s.len(),
{
    if s.len() == 0 {
        Seq::empty()
    } else {
        escaped(s.drop_last()) + escaped_char(s.last())
    }
}

/// Relies on str::escape_default, which escapes each character with `char::escape_default`.
#[verifier::external_body]
pub(crate) fn escape_text(s: &str) -> (r: String)
    ensures
        r@ == escaped(s@),
{
    s.escape_default().collect()
}

} // verus!

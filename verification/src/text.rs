//! Plain-text helpers the search pipeline is built on: whitespace trimming,
//! splitting content into lines, and rendering decimal numbers.

use vstd::prelude::*;
use vstd::string::StrSliceExecFns;
use vstd::string::StringExecFns;

verus! {

/// The Unicode `White_Space` code points, the set that whitespace trimming
/// removes at either end of a line.
pub open spec fn is_ws_char(c: char) -> bool {
    let u = c as u32;
    u == 0x09 || u == 0x0a || u == 0x0b || u == 0x0c || u == 0x0d || u == 0x20
        || u == 0x85 || u == 0xa0 || u == 0x1680 || (0x2000 <= u && u <= 0x200a)
        || u == 0x2028 || u == 0x2029 || u == 0x202f || u == 0x205f || u == 0x3000
}

pub fn is_ws(c: char) -> (r: bool)
    ensures
        r == is_ws_char(c),
{
    let u: u32 = c as u32;
    u == 0x09 || u == 0x0a || u == 0x0b || u == 0x0c || u == 0x0d || u == 0x20
        || u == 0x85 || u == 0xa0 || u == 0x1680 || (0x2000 <= u && u <= 0x200a)
        || u == 0x2028 || u == 0x2029 || u == 0x202f || u == 0x205f || u == 0x3000
}

/// The sequence with every leading whitespace character removed.
pub open spec fn trim_start_of(s: Seq<char>) -> Seq<char>
    decreases s.len(),
{
    if s.len() > 0 && is_ws_char(s[0]) {
        trim_start_of(s.drop_first())
    } else {
        s
    }
}

/// The sequence with every trailing whitespace character removed.
pub open spec fn trim_end_of(s: Seq<char>) -> Seq<char>
    decreases s.len(),
{
    if s.len() > 0 && is_ws_char(s.last()) {
        trim_end_of(s.drop_last())
    } else {
        s
    }
}

/// The sequence with whitespace removed at both ends.
pub open spec fn trimmed_of(s: Seq<char>) -> Seq<char> {
    trim_end_of(trim_start_of(s))
}

proof fn lemma_trim_start_skip(s: Seq<char>, k: int)
    requires
        0 <= k <= s.len(),
        forall|i: int| 0 <= i < k ==> is_ws_char(s[i]),
        k == s.len() || !is_ws_char(s[k]),
    ensures
        trim_start_of(s) == s.skip(k),
    decreases k,
{
    if k == 0 {
        assert(s.skip(0) =~= s);
    } else {
        lemma_trim_start_skip(s.drop_first(), k - 1);
        assert(s.drop_first().skip(k - 1) =~= s.skip(k));
    }
}

proof fn lemma_trim_end_take(s: Seq<char>, k: int)
    requires
        0 <= k <= s.len(),
        forall|i: int| k <= i < s.len() ==> is_ws_char(s[i]),
        k == 0 || !is_ws_char(s[k - 1]),
    ensures
        trim_end_of(s) == s.take(k),
    decreases s.len(),
{
    if k == s.len() {
        assert(s.take(k) =~= s);
    } else {
        assert(is_ws_char(s.last()));
        lemma_trim_end_take(s.drop_last(), k);
        assert(s.drop_last().take(k) =~= s.take(k));
    }
}

/// Remove leading whitespace, as the trimming step of the line matcher does.
pub fn trim_start_str<'a>(s: &'a str) -> (r: &'a str)
    ensures
        r@ == trim_start_of(s@),
{
    let n = s.unicode_len();
    let mut a: usize = 0;
    while a < n
        invariant_except_break
            a <= n,
            n == s@.len(),
            forall|i: int| 0 <= i < a ==> is_ws_char(s@[i]),
        ensures
            a <= n,
            n == s@.len(),
            forall|i: int| 0 <= i < a ==> is_ws_char(s@[i]),
            a == n || !is_ws_char(s@[a as int]),
        decreases n - a,
    {
        if !is_ws(s.get_char(a)) {
            break ;
        }
        a = a + 1;
    }
    proof {
        lemma_trim_start_skip(s@, a as int);
    }
    let r = s.substring_char(a, n);
    proof {
        assert(r@ =~= s@.skip(a as int));
    }
    r
}

/// Remove trailing whitespace, as the result formatter does before output.
pub fn trim_end_str<'a>(s: &'a str) -> (r: &'a str)
    ensures
        r@ == trim_end_of(s@),
{
    let n = s.unicode_len();
    let mut b: usize = n;
    while b > 0
        invariant_except_break
            b <= n,
            n == s@.len(),
            forall|i: int| b <= i < n ==> is_ws_char(s@[i]),
        ensures
            b <= n,
            n == s@.len(),
            forall|i: int| b <= i < n ==> is_ws_char(s@[i]),
            b == 0 || !is_ws_char(s@[b - 1]),
        decreases b,
    {
        if !is_ws(s.get_char(b - 1)) {
            break ;
        }
        b = b - 1;
    }
    proof {
        lemma_trim_end_take(s@, b as int);
    }
    let r = s.substring_char(0, b);
    proof {
        assert(r@ =~= s@.take(b as int));
    }
    r
}

/// Remove whitespace at both ends of a line before it is tested.
pub fn trim_str<'a>(s: &'a str) -> (r: &'a str)
    ensures
        r@ == trimmed_of(s@),
{
    trim_end_str(trim_start_str(s))
}

/// The length of a string in bytes, as `str::len` reports it.
pub open spec fn byte_len(s: Seq<char>) -> usize {
    vstd::utf8::encode_utf8(s).len() as usize
}

/// The index of the first line feed in `s`, or `s.len()` if there is none.
pub open spec fn nl_pos(s: Seq<char>) -> nat
    decreases s.len(),
{
    if s.len() == 0 {
        0
    } else if s[0] == '\n' {
        0
    } else {
        1 + nl_pos(s.drop_first())
    }
}

/// A line terminator is a line feed or a carriage return directly before
/// one; the carriage return is not part of the line.
pub open spec fn chop_cr(line: Seq<char>) -> Seq<char> {
    if line.len() > 0 && line.last() == '\r' {
        line.drop_last()
    } else {
        line
    }
}

proof fn lemma_nl_pos_from(s: Seq<char>, j: int)
    requires
        0 <= j <= s.len(),
        forall|i: int| 0 <= i < j ==> s[i] != '\n',
        j == s.len() || s[j] == '\n',
    ensures
        nl_pos(s) == j,
    decreases j,
{
    if j == 0 {
    } else {
        lemma_nl_pos_from(s.drop_first(), j - 1);
    }
}

/// The lines of a text: split at every line feed, with a carriage return
/// directly before a line feed not counted as part of the line, and with no
/// empty final line after a trailing terminator.
pub open spec fn lines_of(s: Seq<char>) -> Seq<Seq<char>>
    decreases s.len(),
{
    if s.len() == 0 {
        Seq::empty()
    } else {
        let i = nl_pos(s);
        if i < s.len() {
            seq![chop_cr(s.take(i as int))] + lines_of(s.skip(i as int + 1))
        } else {
            seq![s]
        }
    }
}

/// Split a text into its lines, in their original order.
pub fn split_lines(s: &str) -> (r: Vec<String>)
    ensures
        r@.map_values(|l: String| l@) == lines_of(s@),
{
    let n = s.unicode_len();
    let mut r: Vec<String> = Vec::new();
    let mut pos: usize = 0;
    proof {
        assert(s@.skip(0) =~= s@);
    }
    while pos < n
        invariant
            pos <= n,
            n == s@.len(),
            r@.map_values(|l: String| l@) + lines_of(s@.skip(pos as int)) == lines_of(s@),
        decreases n - pos,
    {
        let ghost rest = s@.skip(pos as int);
        let mut j: usize = pos;
        while j < n
            invariant_except_break
                pos <= j <= n,
                n == s@.len(),
                forall|i: int| pos <= i < j ==> s@[i] != '\n',
            ensures
                pos <= j <= n,
                n == s@.len(),
                forall|i: int| pos <= i < j ==> s@[i] != '\n',
                j == n || s@[j as int] == '\n',
            decreases n - j,
        {
            if s.get_char(j) == '\n' {
                break ;
            }
            j = j + 1;
        }
        proof {
            assert(forall|i: int| 0 <= i < j - pos ==> rest[i] == s@[pos + i] && rest[i] != '\n');
            assert(j < n ==> rest[j - pos] == s@[j as int]);
            lemma_nl_pos_from(rest, j - pos);
        }
        if j < n {
            let end: usize = if j > pos && s.get_char(j - 1) == '\r' {
                j - 1
            } else {
                j
            };
            let piece = s.substring_char(pos, end);
            proof {
                assert(rest.take(j - pos) =~= s@.subrange(pos as int, j as int));
                assert(chop_cr(rest.take(j - pos)) =~= s@.subrange(pos as int, end as int));
                assert(rest.skip(j - pos + 1) =~= s@.skip(j + 1));
                assert(lines_of(rest) == seq![chop_cr(rest.take(j - pos))] + lines_of(
                    rest.skip(j - pos + 1),
                ));
            }
            let owned = piece.to_owned();
            r.push(owned);
            proof {
                assert(r@.map_values(|l: String| l@) + lines_of(s@.skip(j + 1)) =~= lines_of(
                    s@,
                ));
            }
            pos = j + 1;
        } else {
            let piece = s.substring_char(pos, n);
            proof {
                assert(rest =~= s@.subrange(pos as int, n as int));
                assert(lines_of(rest) == seq![rest]);
            }
            let owned = piece.to_owned();
            r.push(owned);
            proof {
                assert(s@.skip(n as int) =~= Seq::<char>::empty());
                assert(r@.map_values(|l: String| l@) + lines_of(s@.skip(n as int)) =~= lines_of(
                    s@,
                ));
            }
            pos = n;
        }
    }
    proof {
        assert(s@.skip(n as int) =~= Seq::<char>::empty());
        assert(r@.map_values(|l: String| l@) =~= lines_of(s@));
    }
    r
}

/// The decimal digit for a value below ten.
pub open spec fn digit_char(d: nat) -> char {
    if d == 0 {
        '0'
    } else if d == 1 {
        '1'
    } else if d == 2 {
        '2'
    } else if d == 3 {
        '3'
    } else if d == 4 {
        '4'
    } else if d == 5 {
        '5'
    } else if d == 6 {
        '6'
    } else if d == 7 {
        '7'
    } else if d == 8 {
        '8'
    } else {
        '9'
    }
}

/// The usual decimal rendering of a number, most significant digit first.
pub open spec fn dec_str_of(n: nat) -> Seq<char>
    decreases n,
{
    if n < 10 {
        seq![digit_char(n)]
    } else {
        dec_str_of(n / 10) + seq![digit_char(n % 10)]
    }
}

fn digit_str(d: usize) -> (r: &'static str)
    requires
        d < 10,
    ensures
        r@ == seq![digit_char(d as nat)],
{
    proof {
        reveal_strlit("0");
        reveal_strlit("1");
        reveal_strlit("2");
        reveal_strlit("3");
        reveal_strlit("4");
        reveal_strlit("5");
        reveal_strlit("6");
        reveal_strlit("7");
        reveal_strlit("8");
        reveal_strlit("9");
        assert("0"@ =~= seq!['0']);
        assert("1"@ =~= seq!['1']);
        assert("2"@ =~= seq!['2']);
        assert("3"@ =~= seq!['3']);
        assert("4"@ =~= seq!['4']);
        assert("5"@ =~= seq!['5']);
        assert("6"@ =~= seq!['6']);
        assert("7"@ =~= seq!['7']);
        assert("8"@ =~= seq!['8']);
        assert("9"@ =~= seq!['9']);
    }
    match d {
        0 => "0",
        1 => "1",
        2 => "2",
        3 => "3",
        4 => "4",
        5 => "5",
        6 => "6",
        7 => "7",
        8 => "8",
        _ => "9",
    }
}

/// Render a number in decimal, as the formatter shows line numbers and the
/// summary shows counts.
pub fn usize_to_string(n: usize) -> (r: String)
    ensures
        r@ == dec_str_of(n as nat),
    decreases n,
{
    if n < 10 {
        digit_str(n).to_owned()
    } else {
        proof {
            assert(n / 10 < n) by (nonlinear_arith)
                requires
                    n >= 10,
            ;
        }
        let mut s = usize_to_string(n / 10);
        s.append(digit_str(n % 10));
        s
    }
}

} // verus!

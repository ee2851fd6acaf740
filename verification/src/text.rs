//! Small verified string helpers: equality, prefix test, ASCII lowering,
//! splitting, and decimal parsing, all specified over character sequences.

use vstd::prelude::*;

verus! {

/// Character-wise equality of two strings.
pub fn str_eq(a: &str, b: &str) -> (r: bool)
    ensures
        r == (a@ == b@),
{
    let la = a.unicode_len();
    let lb = b.unicode_len();
    if la != lb {
        proof {
            assert(a@ != b@);
        }
        return false;
    }
    let mut i: usize = 0;
    while i < la
        invariant
            i <= la,
            la == a@.len(),
            la == b@.len(),
            forall|j: int| 0 <= j < i ==> a@[j] == b@[j],
        decreases la - i,
    {
        if a.get_char(i) != b.get_char(i) {
            proof {
                assert(a@[i as int] != b@[i as int]);
            }
            return false;
        }
        i += 1;
    }
    proof {
        assert(a@ =~= b@);
    }
    true
}

/// Whether `s` begins with `prefix`, character-wise.
pub fn starts_with_str(s: &str, prefix: &str) -> (r: bool)
    ensures
        r == (s@.len() >= prefix@.len() && s@.subrange(0, prefix@.len() as int) == prefix@),
{
    let ls = s.unicode_len();
    let lp = prefix.unicode_len();
    if ls < lp {
        return false;
    }
    let mut i: usize = 0;
    while i < lp
        invariant
            i <= lp,
            lp == prefix@.len(),
            ls == s@.len(),
            ls >= lp,
            forall|j: int| 0 <= j < i ==> s@[j] == prefix@[j],
        decreases lp - i,
    {
        if s.get_char(i) != prefix.get_char(i) {
            proof {
                assert(s@.subrange(0, lp as int)[i as int] == s@[i as int]);
                assert(s@.subrange(0, lp as int) != prefix@);
            }
            return false;
        }
        i += 1;
    }
    proof {
        assert(s@.subrange(0, lp as int) =~= prefix@);
    }
    true
}

/// ASCII lowering of one character; anything but an ASCII capital is kept.
pub open spec fn spec_lower_char(c: char) -> char {
    if c == 'A' {
        'a'
    } else if c == 'B' {
        'b'
    } else if c == 'C' {
        'c'
    } else if c == 'D' {
        'd'
    } else if c == 'E' {
        'e'
    } else if c == 'F' {
        'f'
    } else if c == 'G' {
        'g'
    } else if c == 'H' {
        'h'
    } else if c == 'I' {
        'i'
    } else if c == 'J' {
        'j'
    } else if c == 'K' {
        'k'
    } else if c == 'L' {
        'l'
    } else if c == 'M' {
        'm'
    } else if c == 'N' {
        'n'
    } else if c == 'O' {
        'o'
    } else if c == 'P' {
        'p'
    } else if c == 'Q' {
        'q'
    } else if c == 'R' {
        'r'
    } else if c == 'S' {
        's'
    } else if c == 'T' {
        't'
    } else if c == 'U' {
        'u'
    } else if c == 'V' {
        'v'
    } else if c == 'W' {
        'w'
    } else if c == 'X' {
        'x'
    } else if c == 'Y' {
        'y'
    } else if c == 'Z' {
        'z'
    } else {
        c
    }
}

pub fn lower_char(c: char) -> (r: char)
    ensures
        r == spec_lower_char(c),
{
    match c {
        'A' => 'a',
        'B' => 'b',
        'C' => 'c',
        'D' => 'd',
        'E' => 'e',
        'F' => 'f',
        'G' => 'g',
        'H' => 'h',
        'I' => 'i',
        'J' => 'j',
        'K' => 'k',
        'L' => 'l',
        'M' => 'm',
        'N' => 'n',
        'O' => 'o',
        'P' => 'p',
        'Q' => 'q',
        'R' => 'r',
        'S' => 's',
        'T' => 't',
        'U' => 'u',
        'V' => 'v',
        'W' => 'w',
        'X' => 'x',
        'Y' => 'y',
        'Z' => 'z',
        _ => c,
    }
}

/// ASCII lowering of a whole character sequence.
pub open spec fn spec_lower(s: Seq<char>) -> Seq<char> {
    s.map_values(|c: char| spec_lower_char(c))
}

/// The ASCII-lowered characters of a string.
pub fn to_lower_chars(s: &str) -> (r: Vec<char>)
    ensures
        r@ == spec_lower(s@),
{
    let n = s.unicode_len();
    let mut out: Vec<char> = Vec::new();
    let mut i: usize = 0;
    while i < n
        invariant
            i <= n,
            n == s@.len(),
            out@.len() == i,
            forall|j: int| 0 <= j < i ==> out@[j] == spec_lower_char(s@[j]),
        decreases n - i,
    {
        out.push(lower_char(s.get_char(i)));
        i += 1;
    }
    proof {
        assert(out@ =~= spec_lower(s@));
    }
    out
}

/// Character-wise equality of a character vector and a string.
pub fn chars_eq_str(v: &Vec<char>, t: &str) -> (r: bool)
    ensures
        r == (v@ == t@),
{
    let lv = v.len();
    let lt = t.unicode_len();
    if lv != lt {
        proof {
            assert(v@ != t@);
        }
        return false;
    }
    let mut i: usize = 0;
    while i < lv
        invariant
            i <= lv,
            lv == v@.len(),
            lv == t@.len(),
            forall|j: int| 0 <= j < i ==> v@[j] == t@[j],
        decreases lv - i,
    {
        if v[i] != t.get_char(i) {
            proof {
                assert(v@[i as int] != t@[i as int]);
            }
            return false;
        }
        i += 1;
    }
    proof {
        assert(v@ =~= t@);
    }
    true
}

/// Whether the character is an ASCII decimal digit.
pub open spec fn is_digit(c: char) -> bool {
    c == '0' || c == '1' || c == '2' || c == '3' || c == '4' || c == '5' || c == '6' || c == '7'
        || c == '8' || c == '9'
}

/// The value of one digit.
pub open spec fn digit_val(c: char) -> int {
    if c == '0' {
        0
    } else if c == '1' {
        1
    } else if c == '2' {
        2
    } else if c == '3' {
        3
    } else if c == '4' {
        4
    } else if c == '5' {
        5
    } else if c == '6' {
        6
    } else if c == '7' {
        7
    } else if c == '8' {
        8
    } else {
        9
    }
}

/// All characters are digits.
pub open spec fn all_digits(s: Seq<char>) -> bool {
    forall|i: int| 0 <= i < s.len() ==> is_digit(s[i])
}

/// The decimal value of a digit sequence.
pub open spec fn digits_val(s: Seq<char>) -> int
    decreases s.len(),
{
    if s.len() == 0 {
        0
    } else {
        digits_val(s.drop_last()) * 10 + digit_val(s.last())
    }
}

/// The decimal value of a digit sequence never shrinks as digits are
/// appended.
pub proof fn lemma_digits_val_nonneg(s: Seq<char>)
    ensures
        digits_val(s) >= 0,
    decreases s.len(),
{
    if s.len() > 0 {
        lemma_digits_val_nonneg(s.drop_last());
        let v = digits_val(s.drop_last());
        assert(v * 10 >= 0) by (nonlinear_arith)
            requires
                v >= 0,
        ;
    }
}

/// Exec digit test and value.
fn exec_digit(c: char) -> (r: Option<u64>)
    ensures
        match r {
            Some(v) => is_digit(c) && v == digit_val(c),
            None => !is_digit(c),
        },
{
    match c {
        '0' => Some(0),
        '1' => Some(1),
        '2' => Some(2),
        '3' => Some(3),
        '4' => Some(4),
        '5' => Some(5),
        '6' => Some(6),
        '7' => Some(7),
        '8' => Some(8),
        '9' => Some(9),
        _ => None,
    }
}

/// Parse an unsigned decimal number no larger than `u32::MAX` from the whole
/// string: empty strings, non-digits and overflowing values are rejected.
pub fn parse_u32(s: &str) -> (r: Option<u32>)
    ensures
        match r {
            Some(v) => s@.len() > 0 && all_digits(s@) && digits_val(s@) == v as int,
            None => !(s@.len() > 0 && all_digits(s@) && digits_val(s@) <= u32::MAX),
        },
{
    let n = s.unicode_len();
    if n == 0 {
        return None;
    }
    let mut acc: u64 = 0;
    let mut i: usize = 0;
    while i < n
        invariant
            i <= n,
            n == s@.len(),
            all_digits(s@.subrange(0, i as int)),
            acc as int == digits_val(s@.subrange(0, i as int)),
            acc <= u32::MAX,
        decreases n - i,
    {
        let c = s.get_char(i);
        match exec_digit(c) {
            None => {
                proof {
                    assert(!is_digit(s@[i as int]));
                }
                return None;
            },
            Some(d) => {
                proof {
                    let pre = s@.subrange(0, i as int);
                    let cur = s@.subrange(0, i + 1 as int);
                    assert(cur.drop_last() =~= pre);
                    assert(cur.last() == s@[i as int]);
                }
                let next = acc * 10 + d;
                if next > 0xFFFF_FFFF {
                    proof {
                        if all_digits(s@) {
                            let cur = s@.subrange(0, i + 1 as int);
                            lemma_digits_prefix_monotone(s@, i + 1 as int);
                            assert(digits_val(s@) >= digits_val(cur));
                        }
                    }
                    return None;
                }
                acc = next;
            },
        }
        i += 1;
    }
    proof {
        assert(s@.subrange(0, n as int) =~= s@);
    }
    Some(acc as u32)
}

/// The value of a digit string is at least the value of any of its prefixes
/// (digits only grow the number).
pub proof fn lemma_digits_prefix_monotone(s: Seq<char>, i: int)
    requires
        0 <= i <= s.len(),
        all_digits(s),
    ensures
        digits_val(s) >= digits_val(s.subrange(0, i)),
    decreases s.len() - i,
{
    lemma_digits_val_nonneg(s.subrange(0, i));
    if i == s.len() {
        assert(s.subrange(0, i) =~= s);
    }
    if i < s.len() {
        lemma_digits_prefix_monotone(s, i + 1);
        let pre = s.subrange(0, i);
        let cur = s.subrange(0, i + 1);
        assert(cur.drop_last() =~= pre);
        assert(cur.last() == s[i]);
        let v = digits_val(pre);
        assert(v * 10 >= v) by (nonlinear_arith)
            requires
                v >= 0,
        ;
    }
}


/// The decimal digit character of one value below ten.
pub open spec fn spec_digit_char(v: int) -> char {
    if v == 0 {
        '0'
    } else if v == 1 {
        '1'
    } else if v == 2 {
        '2'
    } else if v == 3 {
        '3'
    } else if v == 4 {
        '4'
    } else if v == 5 {
        '5'
    } else if v == 6 {
        '6'
    } else if v == 7 {
        '7'
    } else if v == 8 {
        '8'
    } else {
        '9'
    }
}

/// The decimal digits of a value, most significant first.
pub open spec fn spec_decimal(v: nat) -> Seq<char>
    decreases v,
{
    if v < 10 {
        seq![spec_digit_char(v as int)]
    } else {
        spec_decimal(v / 10).push(spec_digit_char((v % 10) as int))
    }
}

fn digit_char(v: u64) -> (c: char)
    requires
        v < 10,
    ensures
        c == spec_digit_char(v as int),
{
    match v {
        0 => '0',
        1 => '1',
        2 => '2',
        3 => '3',
        4 => '4',
        5 => '5',
        6 => '6',
        7 => '7',
        8 => '8',
        _ => '9',
    }
}

/// Render a value in decimal.
pub fn u64_to_string(v: u64) -> (r: String)
    ensures
        r@ == spec_decimal(v as nat),
    decreases v,
{
    if v < 10 {
        let mut s = String::new();
        string_push_char(&mut s, digit_char(v));
        proof {
            assert(s@ =~= spec_decimal(v as nat));
        }
        s
    } else {
        let mut s = u64_to_string(v / 10);
        string_push_char(&mut s, digit_char(v % 10));
        s
    }
}

/// The coordinate a decimal string with an optional leading minus denotes,
/// when its magnitude fits the coordinate box.
pub open spec fn spec_parse_coord(s: Seq<char>) -> Option<i64> {
    if s.len() > 0 && all_digits(s) && digits_val(s) <= 65536 {
        Some(digits_val(s) as i64)
    } else if s.len() > 1 && s[0] == '-' && all_digits(s.subrange(1, s.len() as int))
        && digits_val(s.subrange(1, s.len() as int)) <= 65536 {
        Some((-digits_val(s.subrange(1, s.len() as int))) as i64)
    } else {
        None
    }
}

/// Parse a signed decimal coordinate: an optional leading minus sign, then
/// digits, the magnitude capped by the coordinate box.
pub fn parse_coord(s: &str) -> (r: Option<i64>)
    ensures
        r == spec_parse_coord(s@),
{
    let n = s.unicode_len();
    if n == 0 {
        return None;
    }
    if s.get_char(0) == '-' {
        if n == 1 {
            return None;
        }
        let rest = s.substring_char(1, n);
        match parse_u32(rest) {
            Some(v) => {
                if v <= 65536 {
                    proof {
                        assert(rest@ =~= s@.subrange(1, s@.len() as int));
                    }
                    Some(-(v as i64))
                } else {
                    None
                }
            },
            None => None,
        }
    } else {
        match parse_u32(s) {
            Some(v) => {
                if v <= 65536 {
                    Some(v as i64)
                } else {
                    None
                }
            },
            None => None,
        }
    }
}

/// Splitting with the piece collected so far: at a separator the piece is
/// emitted, at the end the trailing piece is emitted; an empty input yields
/// one empty piece, as the standard split does.
pub open spec fn spec_split_acc(acc: Seq<char>, s: Seq<char>, sep: char) -> Seq<Seq<char>>
    decreases s.len(),
{
    if s.len() == 0 {
        seq![acc]
    } else if s[0] == sep {
        seq![acc] + spec_split_acc(Seq::empty(), s.subrange(1, s.len() as int), sep)
    } else {
        spec_split_acc(acc.push(s[0]), s.subrange(1, s.len() as int), sep)
    }
}

/// The pieces of `s` between occurrences of `sep`, in order.
pub open spec fn spec_split(s: Seq<char>, sep: char) -> Seq<Seq<char>> {
    spec_split_acc(Seq::empty(), s, sep)
}

/// Split a string on a separator character.
pub fn split_str(s: &str, sep: char) -> (r: Vec<Vec<char>>)
    ensures
        r@.map_values(|p: Vec<char>| p@) == spec_split(s@, sep),
        r@.len() >= 1,
{
    let n = s.unicode_len();
    let mut out: Vec<Vec<char>> = Vec::new();
    let mut piece: Vec<char> = Vec::new();
    let mut i: usize = 0;
    proof {
        assert(s@.subrange(0, n as int) =~= s@);
    }
    while i < n
        invariant
            i <= n,
            n == s@.len(),
            spec_split(s@, sep) == out@.map_values(|p: Vec<char>| p@) + spec_split_acc(
                piece@,
                s@.subrange(i as int, n as int),
                sep,
            ),
        decreases n - i,
    {
        let c = s.get_char(i);
        proof {
            let rest = s@.subrange(i as int, n as int);
            assert(rest[0] == c);
            assert(rest.subrange(1, rest.len() as int) =~= s@.subrange(i + 1 as int, n as int));
        }
        if c == sep {
            let ghost old_out = out@;
            out.push(piece);
            piece = Vec::new();
            proof {
                assert(out@.map_values(|p: Vec<char>| p@) =~= old_out.map_values(
                    |p: Vec<char>| p@,
                ).push(out@.last()@));
                assert(out@.map_values(|p: Vec<char>| p@) + spec_split_acc(
                    piece@,
                    s@.subrange(i + 1 as int, n as int),
                    sep,
                ) =~= spec_split(s@, sep));
            }
        } else {
            piece.push(c);
        }
        i += 1;
    }
    proof {
        assert(s@.subrange(n as int, n as int) =~= Seq::<char>::empty());
        assert(spec_split_acc(piece@, s@.subrange(n as int, n as int), sep) == seq![piece@]);
    }
    let ghost old_out = out@;
    out.push(piece);
    proof {
        assert(out@.map_values(|p: Vec<char>| p@) =~= old_out.map_values(|p: Vec<char>| p@).push(
            out@.last()@,
        ));
        assert(out@.map_values(|p: Vec<char>| p@) =~= spec_split(s@, sep));
    }
    out
}


/// Relies on String::push: appending one character to the end of the buffer.
#[verifier::external_body]
fn string_push_char(s: &mut String, c: char)
    ensures
        final(s)@ == old(s)@.push(c),
{
    s.push(c);
}

/// Build a string from a character vector.
pub fn chars_to_string(v: &Vec<char>) -> (r: String)
    ensures
        r@ == v@,
{
    let n = v.len();
    let mut out = String::new();
    let mut i: usize = 0;
    while i < n
        invariant
            i <= n,
            n == v@.len(),
            out@ == v@.subrange(0, i as int),
        decreases n - i,
    {
        string_push_char(&mut out, v[i]);
        proof {
            assert(out@ =~= v@.subrange(0, i + 1 as int));
        }
        i += 1;
    }
    proof {
        assert(v@.subrange(0, n as int) =~= v@);
    }
    out
}


/// Whether `pat` occurs as a contiguous run inside `s`.
pub open spec fn spec_contains_seq(s: Seq<char>, pat: Seq<char>) -> bool {
    exists|i: int|
        0 <= i <= s.len() - pat.len() && #[trigger] s.subrange(i, i + pat.len()) == pat
}

/// Substring search.
pub fn contains_str(s: &str, pat: &str) -> (r: bool)
    ensures
        r == spec_contains_seq(s@, pat@),
{
    let n = s.unicode_len();
    let m = pat.unicode_len();
    if m == 0 {
        proof {
            assert(s@.subrange(0, 0 + pat@.len() as int) =~= pat@);
            assert(spec_contains_seq(s@, pat@)) by {
                assert(0 <= 0 <= s@.len() - pat@.len() && s@.subrange(0, 0 + pat@.len() as int)
                    == pat@);
            }
        }
        return true;
    }
    if m > n {
        proof {
            if spec_contains_seq(s@, pat@) {
                let i = choose|i: int|
                    0 <= i <= s@.len() - pat@.len() && #[trigger] s@.subrange(i, i + pat@.len())
                        == pat@;
            }
        }
        return false;
    }
    let mut i: usize = 0;
    while i <= n - m
        invariant
            1 <= m <= n,
            n == s@.len(),
            m == pat@.len(),
            i <= n - m + 1,
            forall|j: int| 0 <= j < i ==> #[trigger] s@.subrange(j, j + pat@.len()) != pat@,
        decreases n - m + 1 - i,
    {
        let piece = s.substring_char(i, i + m);
        if str_eq(piece, pat) {
            proof {
                assert(s@.subrange(i as int, i + m as int) == pat@);
            }
            return true;
        }
        i += 1;
    }
    proof {
        if spec_contains_seq(s@, pat@) {
            let j = choose|j: int|
                0 <= j <= s@.len() - pat@.len() && #[trigger] s@.subrange(j, j + pat@.len())
                    == pat@;
            assert(j < i);
        }
    }
    false
}

} // verus!

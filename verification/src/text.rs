use vstd::prelude::*;

use crate::version::Version;

verus! {

/// The character for a single decimal digit.
pub open spec fn digit_char(d: int) -> char
    recommends
        0 <= d < 10,
{
    if d == 0 {
        '0'
    } else if d == 1 {
        '1'
    } else if d == 2 {
        '2'
    } else if d == 3 {
        '3'
    } else if d == 4 {
        '4'
    } else if d == 5 {
        '5'
    } else if d == 6 {
        '6'
    } else if d == 7 {
        '7'
    } else if d == 8 {
        '8'
    } else {
        '9'
    }
}

/// Whether a character is a decimal digit.
pub open spec fn is_digit(c: char) -> bool {
    '0' <= c && c <= '9'
}

/// The numeric value of a decimal digit character.
pub open spec fn digit_val(c: char) -> int
    recommends
        is_digit(c),
{
    c as int - '0' as int
}

/// The canonical decimal representation of a natural number, most
/// significant digit first, with no leading zeroes (except for zero
/// itself, written as a single digit).
pub open spec fn dec_rep(n: nat) -> Seq<char>
    decreases n,
{
    if n < 10 {
        seq![digit_char(n as int)]
    } else {
        dec_rep(n / 10).push(digit_char((n % 10) as int))
    }
}

/// Digit characters evaluate back to the digit they stand for.
pub proof fn lemma_digit_char_val(d: int)
    requires
        0 <= d < 10,
    ensures
        is_digit(digit_char(d)),
        digit_val(digit_char(d)) == d,
{
}

/// Every character of a decimal representation is a digit, and the
/// representation is never empty.
pub proof fn lemma_dec_rep_digits(n: nat)
    ensures
        dec_rep(n).len() >= 1,
        forall|i: int| 0 <= i < dec_rep(n).len() ==> is_digit(#[trigger] dec_rep(n)[i]),
    decreases n,
{
    if n < 10 {
        lemma_digit_char_val(n as int);
    } else {
        lemma_dec_rep_digits(n / 10);
        lemma_digit_char_val((n % 10) as int);
        assert forall|i: int| 0 <= i < dec_rep(n).len() implies is_digit(
            #[trigger] dec_rep(n)[i],
        ) by {
            if i < dec_rep(n / 10).len() {
                assert(dec_rep(n)[i] == dec_rep(n / 10)[i]);
            }
        }
    }
}

/// The numeric value of a sequence of digit characters, read most
/// significant digit first; an empty sequence has value zero.
pub open spec fn seq_val(s: Seq<char>) -> int
    decreases s.len(),
{
    if s.len() == 0 {
        0
    } else {
        seq_val(s.drop_last()) * 10 + digit_val(s.last())
    }
}

/// Whether every character of a sequence is a decimal digit.
pub open spec fn all_digits(s: Seq<char>) -> bool {
    forall|i: int| 0 <= i < s.len() ==> is_digit(#[trigger] s[i])
}

/// A digit sequence's value is non-negative.
pub proof fn lemma_seq_val_nonneg(s: Seq<char>)
    requires
        all_digits(s),
    ensures
        seq_val(s) >= 0,
    decreases s.len(),
{
    if s.len() > 0 {
        assert(all_digits(s.drop_last()));
        lemma_seq_val_nonneg(s.drop_last());
        assert(is_digit(s.last()));
    }
}

/// Evaluating the decimal representation of a number recovers the number:
/// the representation is faithful.
pub proof fn lemma_dec_rep_val(n: nat)
    ensures
        seq_val(dec_rep(n)) == n,
    decreases n,
{
    if n < 10 {
        lemma_digit_char_val(n as int);
        assert(dec_rep(n).drop_last() =~= Seq::<char>::empty());
        assert(seq_val(dec_rep(n).drop_last()) == 0);
    } else {
        lemma_dec_rep_val(n / 10);
        lemma_digit_char_val((n % 10) as int);
        let s = dec_rep(n);
        assert(s.drop_last() =~= dec_rep(n / 10));
        assert(s.last() == digit_char((n % 10) as int));
        assert(seq_val(s) == (n / 10) * 10 + n % 10);
        assert((n / 10) * 10 + n % 10 == n) by (nonlinear_arith);
    }
}

/// Every subrange of a digit sequence consists of digits.
pub proof fn lemma_all_digits_subrange(s: Seq<char>, i: int, j: int)
    requires
        all_digits(s),
        0 <= i <= j <= s.len(),
    ensures
        all_digits(s.subrange(i, j)),
{
    assert forall|k: int| 0 <= k < s.subrange(i, j).len() implies is_digit(
        #[trigger] s.subrange(i, j)[k],
    ) by {
        assert(s.subrange(i, j)[k] == s[i + k]);
    }
}

/// Extending a digit prefix by one digit multiplies its value by ten and
/// adds the digit.
pub proof fn lemma_seq_val_take_step(s: Seq<char>, i: int)
    requires
        0 <= i < s.len(),
    ensures
        seq_val(s.take(i + 1)) == seq_val(s.take(i)) * 10 + digit_val(s[i]),
{
    assert(s.take(i + 1).drop_last() =~= s.take(i));
    assert(s.take(i + 1).last() == s[i]);
}

/// The value of a prefix of a digit sequence never exceeds the value of
/// the whole sequence.
pub proof fn lemma_seq_val_take_mono(s: Seq<char>, i: int)
    requires
        all_digits(s),
        0 <= i <= s.len(),
    ensures
        seq_val(s.take(i)) <= seq_val(s),
    decreases s.len() - i,
{
    if i == s.len() {
        assert(s.take(i) =~= s);
    } else {
        lemma_seq_val_take_step(s, i);
        lemma_all_digits_subrange(s, 0, i);
        assert(s.subrange(0, i) =~= s.take(i));
        lemma_seq_val_nonneg(s.take(i));
        assert(is_digit(s[i]));
        lemma_seq_val_take_mono(s, i + 1);
    }
}

/// What a sequence of characters parses to as an unsigned 32-bit number:
/// a non-empty, all-digit sequence whose value fits yields that value;
/// anything else fails.
pub open spec fn parse_u32_spec(s: Seq<char>) -> Option<u32> {
    if s.len() > 0 && all_digits(s) && seq_val(s) <= u32::MAX {
        Some(seq_val(s) as u32)
    } else {
        None
    }
}

/// Parses a string as an unsigned 32-bit decimal number. Succeeds exactly
/// on non-empty, all-digit strings whose value fits in 32 bits; leading
/// zeroes are accepted.
pub fn parse_u32(s: &str) -> (r: Option<u32>)
    ensures
        r == parse_u32_spec(s@),
{
    let len = s.unicode_len();
    if len == 0 {
        return None;
    }
    let mut acc: u64 = 0;
    let mut i: usize = 0;
    while i < len
        invariant
            0 <= i <= len,
            len == s@.len(),
            all_digits(s@.take(i as int)),
            acc == seq_val(s@.take(i as int)),
            acc <= u32::MAX,
        decreases len - i,
    {
        let c = s.get_char(i);
        if c < '0' || c > '9' {
            proof {
                assert(!is_digit(s@[i as int]));
            }
            return None;
        }
        let d: u64 = (c as u64) - 48;
        proof {
            assert(c as int - 48 == digit_val(c));
            lemma_seq_val_take_step(s@, i as int);
        }
        let next: u64 = acc * 10 + d;
        if next > 0xffff_ffff {
            proof {
                if all_digits(s@) {
                    lemma_seq_val_take_mono(s@, i as int + 1);
                }
            }
            return None;
        }
        acc = next;
        i = i + 1;
    }
    proof {
        assert(s@.take(len as int) =~= s@);
    }
    Some(acc as u32)
}

/// Appends one decimal digit to a string.
fn push_digit(s: &mut String, d: u32)
    requires
        d < 10,
    ensures
        final(s)@ == old(s)@.push(digit_char(d as int)),
{
    let ghost prev = s@;
    match d {
        0 => {
            proof {
                reveal_strlit("0");
            }
            s.append("0");
        },
        1 => {
            proof {
                reveal_strlit("1");
            }
            s.append("1");
        },
        2 => {
            proof {
                reveal_strlit("2");
            }
            s.append("2");
        },
        3 => {
            proof {
                reveal_strlit("3");
            }
            s.append("3");
        },
        4 => {
            proof {
                reveal_strlit("4");
            }
            s.append("4");
        },
        5 => {
            proof {
                reveal_strlit("5");
            }
            s.append("5");
        },
        6 => {
            proof {
                reveal_strlit("6");
            }
            s.append("6");
        },
        7 => {
            proof {
                reveal_strlit("7");
            }
            s.append("7");
        },
        8 => {
            proof {
                reveal_strlit("8");
            }
            s.append("8");
        },
        _ => {
            proof {
                reveal_strlit("9");
            }
            s.append("9");
        },
    }
    assert(s@ =~= prev.push(digit_char(d as int)));
}

/// Appends the decimal representation of a number to a string.
fn push_decimal(s: &mut String, n: u32)
    ensures
        final(s)@ == old(s)@ + dec_rep(n as nat),
    decreases n,
{
    let ghost prev = s@;
    if n >= 10 {
        push_decimal(s, n / 10);
        push_digit(s, n % 10);
        assert(s@ =~= prev + dec_rep(n as nat));
    } else {
        push_digit(s, n);
        assert(s@ =~= prev + dec_rep(n as nat));
    }
}

/// Formats a number as its decimal representation.
pub fn u32_to_decimal(n: u32) -> (s: String)
    ensures
        s@ == dec_rep(n as nat),
{
    let mut s = String::new();
    push_decimal(&mut s, n);
    proof {
        assert(s@ =~= dec_rep(n as nat));
    }
    s
}

/// Whether positions `i` and `j` are the only two dots of `s`, in order.
pub open spec fn is_dot_split(s: Seq<char>, i: int, j: int) -> bool {
    &&& 0 <= i < j < s.len()
    &&& s[i] == '.'
    &&& s[j] == '.'
    &&& forall|k: int| 0 <= k < s.len() && (#[trigger] s[k]) == '.' ==> k == i || k == j
}

/// A sequence has at most one pair of positions that split it at exactly
/// two dots.
pub proof fn lemma_dot_split_unique(s: Seq<char>, i1: int, j1: int, i2: int, j2: int)
    requires
        is_dot_split(s, i1, j1),
        is_dot_split(s, i2, j2),
    ensures
        i1 == i2,
        j1 == j2,
{
    assert(s[i1] == '.');
    assert(s[j1] == '.');
    assert(s[i2] == '.');
    assert(s[j2] == '.');
}

/// What a sequence of characters parses to as a dotted version triple:
/// it must consist of exactly three parts separated by exactly two dots,
/// each part a valid unsigned 32-bit decimal number.
pub open spec fn parse_version_spec(s: Seq<char>) -> Option<(u32, u32, u32)> {
    if exists|i: int, j: int| is_dot_split(s, i, j) {
        let (i, j) = choose|i: int, j: int| is_dot_split(s, i, j);
        match (
            parse_u32_spec(s.subrange(0, i)),
            parse_u32_spec(s.subrange(i + 1, j)),
            parse_u32_spec(s.subrange(j + 1, s.len() as int)),
        ) {
            (Some(a), Some(b), Some(c)) => Some((a, b, c)),
            _ => None,
        }
    } else {
        None
    }
}

/// Finds the first dot of `s` at or after position `from`.
fn find_dot(s: &str, from: usize) -> (r: Option<usize>)
    requires
        from <= s@.len(),
    ensures
        match r {
            Some(k) => {
                &&& from <= k < s@.len()
                &&& s@[k as int] == '.'
                &&& forall|t: int| from <= t < k ==> (#[trigger] s@[t]) != '.'
            },
            None => forall|t: int| from <= t < s@.len() ==> (#[trigger] s@[t]) != '.',
        },
{
    let len = s.unicode_len();
    let mut k = from;
    while k < len
        invariant
            from <= k <= len,
            len == s@.len(),
            forall|t: int| from <= t < k ==> (#[trigger] s@[t]) != '.',
        decreases len - k,
    {
        let c = s.get_char(k);
        if c == '.' {
            return Some(k);
        }
        k = k + 1;
    }
    None
}

/// Parses a string of the form `"major.minor.build"` into its three
/// numeric components. Succeeds exactly when the string holds two dots
/// and the three parts between them are valid 32-bit decimal numbers.
pub fn parse_version(s: &str) -> (r: Option<(u32, u32, u32)>)
    ensures
        r == parse_version_spec(s@),
{
    let len = s.unicode_len();
    let first = find_dot(s, 0);
    let i = match first {
        None => {
            proof {
                if exists|i: int, j: int| is_dot_split(s@, i, j) {
                    let (i, j) = choose|i: int, j: int| is_dot_split(s@, i, j);
                    assert(s@[i] == '.');
                }
            }
            return None;
        },
        Some(i) => i,
    };
    let second = find_dot(s, i + 1);
    let j = match second {
        None => {
            proof {
                if exists|i2: int, j2: int| is_dot_split(s@, i2, j2) {
                    let (i2, j2) = choose|i2: int, j2: int| is_dot_split(s@, i2, j2);
                    assert(s@[i2] == '.');
                    assert(s@[j2] == '.');
                }
            }
            return None;
        },
        Some(j) => j,
    };
    let part1 = s.substring_char(0, i);
    let part2 = s.substring_char(i + 1, j);
    let part3 = s.substring_char(j + 1, len);
    let a = parse_u32(part1);
    let b = parse_u32(part2);
    let c = parse_u32(part3);
    let r = match (a, b, c) {
        (Some(x), Some(y), Some(z)) => Some((x, y, z)),
        _ => None,
    };
    proof {
        let sv = s@;
        let ii = i as int;
        let jj = j as int;
        if exists|k: int| jj < k < sv.len() && (#[trigger] sv[k]) == '.' {
            // A third dot: no two positions can account for all dots, and
            // the third part cannot parse as a number.
            let k = choose|k: int| jj < k < sv.len() && (#[trigger] sv[k]) == '.';
            assert(part3@[k - (jj + 1)] == sv[k]);
            assert(!is_digit(sv[k]));
            assert(!all_digits(part3@));
            assert(c is None);
            if exists|i2: int, j2: int| is_dot_split(sv, i2, j2) {
                let (i2, j2) = choose|i2: int, j2: int| is_dot_split(sv, i2, j2);
                assert(sv[ii] == '.');
                assert(sv[jj] == '.');
                assert(sv[k] == '.');
                assert(false);
            }
        } else {
            assert(is_dot_split(sv, ii, jj));
            let (i2, j2) = choose|i2: int, j2: int| is_dot_split(sv, i2, j2);
            lemma_dot_split_unique(sv, ii, jj, i2, j2);
            assert(part1@ == sv.subrange(0, ii));
            assert(part2@ == sv.subrange(ii + 1, jj));
            assert(part3@ == sv.subrange(jj + 1, sv.len() as int));
        }
    }
    r
}

/// The text form of a version triple: the three decimal components
/// separated by dots.
pub open spec fn version_text(major: nat, minor: nat, build: nat) -> Seq<char> {
    dec_rep(major) + seq!['.'] + dec_rep(minor) + seq!['.'] + dec_rep(build)
}

/// Formats three version components as `"major.minor.build"`.
pub fn format_version_fields(major: u32, minor: u32, build: u32) -> (s: String)
    ensures
        s@ == version_text(major as nat, minor as nat, build as nat),
{
    let mut s = String::new();
    push_decimal(&mut s, major);
    proof {
        reveal_strlit(".");
    }
    s.append(".");
    push_decimal(&mut s, minor);
    s.append(".");
    push_decimal(&mut s, build);
    proof {
        assert(s@ =~= version_text(major as nat, minor as nat, build as nat));
    }
    s
}

/// Formats a version as `"major.minor.build"`; the role is not part of
/// the text form.
pub fn format_version(v: &Version) -> (s: String)
    ensures
        s@ == version_text(v.major as nat, v.minor as nat, v.build as nat),
{
    format_version_fields(v.major, v.minor, v.build)
}

impl Version {
    /// The version as text: `"major.minor.build"`.
    pub fn to_text(&self) -> (s: String)
        ensures
            s@ == version_text(self.major as nat, self.minor as nat, self.build as nat),
    {
        format_version_fields(self.major, self.minor, self.build)
    }
}

/// Law: formatting a version triple as `"major.minor.build"` and parsing
/// those three integers back reconstructs the same numeric fields (the
/// role is not part of the text form).
pub proof fn lemma_version_text_round_trip(major: u32, minor: u32, build: u32)
    ensures
        parse_version_spec(version_text(major as nat, minor as nat, build as nat)) == Some(
            (major, minor, build),
        ),
{
    let la = dec_rep(major as nat);
    let lb = dec_rep(minor as nat);
    let lc = dec_rep(build as nat);
    let s = version_text(major as nat, minor as nat, build as nat);
    lemma_dec_rep_digits(major as nat);
    lemma_dec_rep_digits(minor as nat);
    lemma_dec_rep_digits(build as nat);
    let i = la.len() as int;
    let j = la.len() as int + 1 + lb.len() as int;
    assert(!is_digit('.'));
    assert(s[i] == '.');
    assert(s[j] == '.');
    assert forall|k: int| 0 <= k < s.len() && (#[trigger] s[k]) == '.' implies k == i || k
        == j by {
        if k < i {
            assert(s[k] == la[k]);
            assert(is_digit(la[k]));
        } else if i < k < j {
            assert(s[k] == lb[k - i - 1]);
            assert(is_digit(lb[k - i - 1]));
        } else if j < k {
            assert(s[k] == lc[k - j - 1]);
            assert(is_digit(lc[k - j - 1]));
        }
    }
    assert(is_dot_split(s, i, j));
    let (i2, j2) = choose|i2: int, j2: int| is_dot_split(s, i2, j2);
    lemma_dot_split_unique(s, i, j, i2, j2);
    assert(s.subrange(0, i) =~= la);
    assert(s.subrange(i + 1, j) =~= lb);
    assert(s.subrange(j + 1, s.len() as int) =~= lc);
    lemma_dec_rep_val(major as nat);
    lemma_dec_rep_val(minor as nat);
    lemma_dec_rep_val(build as nat);
    assert(parse_u32_spec(la) == Some(major));
    assert(parse_u32_spec(lb) == Some(minor));
    assert(parse_u32_spec(lc) == Some(build));
}

} // verus!

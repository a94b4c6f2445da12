//! Decimal rendering and parsing of unsigned integers, and the names of
//! data files built from them.

use vstd::prelude::*;
use vstd::string::{StrSliceExecFns, StringExecFns};

verus! {

/// Basename of the index file.
pub const INDEX_FILE_NAME: &'static str = "blockdb.idx";

/// The ASCII decimal digit for `d` (`d < 10`).
pub open spec fn digit_char(d: nat) -> char {
    (('0' as u32) + d) as char
}

/// Whether `c` is an ASCII decimal digit.
pub open spec fn is_digit(c: char) -> bool {
    '0' <= c && c <= '9'
}

/// Decimal representation of `n`, without sign or leading zeros.
pub open spec fn decimal(n: nat) -> Seq<char>
    decreases n,
{
    if n < 10 {
        seq![digit_char(n)]
    } else {
        decimal(n / 10).push(digit_char(n % 10))
    }
}

/// The value of a run of decimal digits (zero for the empty run).
pub open spec fn digits_value(s: Seq<char>) -> nat
    decreases s.len(),
{
    if s.len() == 0 {
        0
    } else {
        digits_value(s.drop_last()) * 10 + ((s.last() as u32) - ('0' as u32)) as nat
    }
}

/// The digits of an unsigned decimal: the text after an optional `+`.
pub open spec fn unsigned_digits(s: Seq<char>) -> Seq<char> {
    if s.len() > 0 && s[0] == '+' {
        s.drop_first()
    } else {
        s
    }
}

/// A non-empty run of ASCII digits whose value fits in `u32`.
pub open spec fn parse_digits(d: Seq<char>) -> Option<u32> {
    if d.len() > 0 && (forall|i: int| 0 <= i < d.len() ==> is_digit(#[trigger] d[i]))
        && digits_value(d) <= u32::MAX {
        Some(digits_value(d) as u32)
    } else {
        None
    }
}

/// How the standard library reads an unsigned 32-bit decimal: an optional
/// `+`, then at least one ASCII digit, with a value that fits in `u32`.
pub open spec fn parse_u32_spec(s: Seq<char>) -> Option<u32> {
    parse_digits(unsigned_digits(s))
}

fn digit_str(d: u64) -> (s: &'static str)
    requires
        d < 10,
    ensures
        s@ == seq![digit_char(d as nat)],
{
    proof {
        reveal_strlit("0");
        reveal_strlit("1");
        reveal_strlit("2");
        reveal_strlit("3");
        reveal_strlit("4");
        reveal_strlit("5");
        reveal_strlit("6");
        reveal_strlit("7");
        reveal_strlit("8");
        reveal_strlit("9");
    }
    if d == 0 {
        "0"
    } else if d == 1 {
        "1"
    } else if d == 2 {
        "2"
    } else if d == 3 {
        "3"
    } else if d == 4 {
        "4"
    } else if d == 5 {
        "5"
    } else if d == 6 {
        "6"
    } else if d == 7 {
        "7"
    } else if d == 8 {
        "8"
    } else {
        "9"
    }
}

/// Appends the decimal representation of `n` to `out`.
pub fn push_decimal(out: &mut String, n: u64)
    ensures
        final(out)@ == old(out)@ + decimal(n as nat),
    decreases n,
{
    if n < 10 {
        out.append(digit_str(n));
    } else {
        push_decimal(out, n / 10);
        out.append(digit_str(n % 10));
        assert(out@ =~= old(out)@ + decimal(n as nat));
    }
}


proof fn lemma_digits_value_step(s: Seq<char>, k: int)
    requires
        0 <= k < s.len(),
    ensures
        digits_value(s.subrange(0, k + 1)) == digits_value(s.subrange(0, k)) * 10 + ((s[k] as u32)
            - ('0' as u32)) as nat,
{
    assert(s.subrange(0, k + 1).drop_last() =~= s.subrange(0, k));
}

proof fn lemma_digits_value_monotone(s: Seq<char>, i: int, j: int)
    requires
        0 <= i <= j <= s.len(),
        forall|k: int| 0 <= k < s.len() ==> is_digit(#[trigger] s[k]),
    ensures
        digits_value(s.subrange(0, i)) <= digits_value(s.subrange(0, j)),
    decreases j - i,
{
    if i < j {
        lemma_digits_value_monotone(s, i, j - 1);
        lemma_digits_value_step(s, j - 1);
        assert(is_digit(s[j - 1]));
    }
}

/// The literal that every data file name starts with.
pub open spec fn data_file_prefix() -> Seq<char> {
    seq!['b', 'l', 'o', 'c', 'k', 'd', 'b', '_']
}

/// The literal that every data file name ends with.
pub open spec fn data_file_suffix() -> Seq<char> {
    seq!['.', 'd', 'a', 't']
}

/// The name of data file `index`, such as `blockdb_0.dat`.
pub open spec fn data_file_name_spec(index: u32) -> Seq<char> {
    data_file_prefix() + decimal(index as nat) + data_file_suffix()
}

/// The index named by a data file name: the prefix, an unsigned decimal as
/// the standard library parses it, then the suffix; `None` otherwise.
pub open spec fn data_file_index_spec(name: Seq<char>) -> Option<u32> {
    if name.len() >= 12 && name.subrange(0, 8) == data_file_prefix() && name.subrange(
        name.len() - 4,
        name.len() as int,
    ) == data_file_suffix() {
        parse_u32_spec(name.subrange(8, name.len() - 4))
    } else {
        None
    }
}

/// Builds the basename of data file `index`, e.g. `blockdb_42.dat`.
pub fn data_file_name(index: u32) -> (name: String)
    ensures
        name@ == data_file_name_spec(index),
{
    let mut name = String::from_str("blockdb_");
    proof {
        reveal_strlit("blockdb_");
        reveal_strlit(".dat");
        assert(name@ =~= data_file_prefix());
    }
    push_decimal(&mut name, index as u64);
    name.append(".dat");
    assert(name@ =~= data_file_name_spec(index));
    name
}

/// Reads `name[from..to]` as an unsigned 32-bit decimal, the way the standard
/// library does.
fn parse_u32_range(name: &str, from: usize, to: usize) -> (r: Option<u32>)
    requires
        from <= to <= name@.len(),
    ensures
        r == parse_u32_spec(name@.subrange(from as int, to as int)),
{
    let ghost s = name@.subrange(from as int, to as int);
    let mut start = from;
    if from < to && name.get_char(from) == '+' {
        start = from + 1;
    }
    let ghost d = name@.subrange(start as int, to as int);
    proof {
        if from < to && name@[from as int] == '+' {
            assert(d =~= s.drop_first());
        } else {
            assert(d =~= s);
        }
    }
    if start == to {
        return None;
    }
    let mut value: u64 = 0;
    let mut i = start;
    while i < to
        invariant
            from <= start <= i <= to <= name@.len(),
            s == name@.subrange(from as int, to as int),
            d == name@.subrange(start as int, to as int),
            d == unsigned_digits(s),
            d.len() > 0,
            forall|k: int| 0 <= k < i - start ==> is_digit(#[trigger] d[k]),
            value == digits_value(d.subrange(0, i - start)),
            value <= u32::MAX,
        decreases to - i,
    {
        let c = name.get_char(i);
        assert(d[i - start] == name@[i as int]);
        if !(c >= '0' && c <= '9') {
            assert(!is_digit(d[i - start]));
            assert(!(forall|k: int| 0 <= k < d.len() ==> is_digit(#[trigger] d[k])));
            assert(parse_digits(d) == None::<u32>);
            return None;
        }
        proof {
            lemma_digits_value_step(d, i - start);
        }
        value = value * 10 + ((c as u32) - ('0' as u32)) as u64;
        if value > 4294967295 {
            proof {
                assert forall|k: int| 0 <= k < i - start + 1 implies is_digit(
                    #[trigger] d.subrange(0, i - start + 1)[k],
                ) by {}
                if forall|k: int| 0 <= k < d.len() ==> is_digit(#[trigger] d[k]) {
                    lemma_digits_value_monotone(d, i - start + 1, d.len() as int);
                    assert(d.subrange(0, d.len() as int) =~= d);
                    assert(digits_value(d) > u32::MAX);
                }
                assert(parse_digits(d) == None::<u32>);
            }
            return None;
        }
        i = i + 1;
    }
    assert(d.subrange(0, d.len() as int) =~= d);
    Some(value as u32)
}

/// Reads the index out of a data file basename; `None` when `name` is not
/// one.
pub fn parse_data_file_index(name: &str) -> (r: Option<u32>)
    ensures
        r == data_file_index_spec(name@),
{
    let n = name.unicode_len();
    if n < 12 {
        return None;
    }
    proof {
        reveal_strlit("blockdb_");
        reveal_strlit(".dat");
    }
    let prefix = "blockdb_";
    let mut i: usize = 0;
    while i < 8
        invariant
            n == name@.len(),
            n >= 12,
            i <= 8,
            prefix@ == data_file_prefix(),
            forall|k: int| 0 <= k < i ==> name@[k] == data_file_prefix()[k],
        decreases 8 - i,
    {
        if name.get_char(i) != prefix.get_char(i) {
            assert(name@.subrange(0, 8)[i as int] != data_file_prefix()[i as int]);
            return None;
        }
        i = i + 1;
    }
    assert(name@.subrange(0, 8) =~= data_file_prefix());
    let suffix = ".dat";
    let mut j: usize = 0;
    while j < 4
        invariant
            n == name@.len(),
            n >= 12,
            j <= 4,
            suffix@ == data_file_suffix(),
            forall|k: int| 0 <= k < j ==> name@[n - 4 + k] == data_file_suffix()[k],
        decreases 4 - j,
    {
        if name.get_char(n - 4 + j) != suffix.get_char(j) {
            assert(name@.subrange(n - 4, n as int)[j as int] != data_file_suffix()[j as int]);
            return None;
        }
        j = j + 1;
    }
    assert(name@.subrange(n - 4, n as int) =~= data_file_suffix());
    parse_u32_range(name, 8, n - 4)
}


proof fn lemma_decimal_digits(n: nat)
    ensures
        decimal(n).len() > 0,
        forall|i: int| 0 <= i < decimal(n).len() ==> is_digit(#[trigger] decimal(n)[i]),
        digits_value(decimal(n)) == n,
    decreases n,
{
    let c = digit_char(n % 10);
    assert((c as u32) == ('0' as u32) + n % 10);
    if n >= 10 {
        lemma_decimal_digits(n / 10);
        let d = decimal(n);
        assert(d.drop_last() =~= decimal(n / 10));
        assert(d.last() == c);
        assert(digits_value(d) == (n / 10) * 10 + n % 10);
    } else {
        let d = decimal(n);
        assert(d.drop_last() =~= Seq::<char>::empty());
        assert(digits_value(Seq::<char>::empty()) == 0);
        assert(d.last() == c);
        assert(n % 10 == n);
    }
}

/// Reading back the name of data file `index` gives `index`.
pub proof fn lemma_data_file_name_round_trip(index: u32)
    ensures
        data_file_index_spec(data_file_name_spec(index)) == Some(index),
{
    let name = data_file_name_spec(index);
    let d = decimal(index as nat);
    lemma_decimal_digits(index as nat);
    assert(name.subrange(0, 8) =~= data_file_prefix());
    assert(name.subrange(name.len() - 4, name.len() as int) =~= data_file_suffix());
    assert(name.subrange(8, name.len() - 4) =~= d);
    assert(is_digit(d[0]));
    assert(unsigned_digits(d) == d);
}

} // verus!

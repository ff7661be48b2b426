//! Small text utilities shared across the crate: decimal rendering,
//! character-level string building, whitespace trimming, terminal escape
//! stripping and the selection syntax of the interactive installer prompts.
use vstd::prelude::*;

verus! {

use vstd::string::StringExecFns;
use vstd::string::StrSliceExecFns;

/// Relies on `String::push`: appends the one character to the string.
#[verifier::external_body]
pub(crate) fn push_char(s: &mut String, c: char)
    ensures
        final(s)@ == old(s)@.push(c),
{
    s.push(c);
}

/// Whether two string slices hold the same characters.
pub fn str_eq(a: &str, b: &str) -> (r: bool)
    ensures
        r == (a@ == b@),
{
    a.to_owned() == b.to_owned()
}

/// The decimal digit character for a value below ten.
pub open spec fn spec_digit(d: int) -> char {
    if d == 0 {
        '0'
    } else if d == 1 {
        '1'
    } else if d == 2 {
        '2'
    } else if d == 3 {
        '3'
    } else if d == 4 {
        '4'
    } else if d == 5 {
        '5'
    } else if d == 6 {
        '6'
    } else if d == 7 {
        '7'
    } else if d == 8 {
        '8'
    } else {
        '9'
    }
}

/// The decimal rendering of a non-negative integer, without sign or padding.
pub open spec fn spec_dec_nat(n: nat) -> Seq<char>
    decreases n,
{
    if n < 10 {
        seq![spec_digit(n as int)]
    } else {
        spec_dec_nat(n / 10).push(spec_digit((n % 10) as int))
    }
}

/// The decimal rendering of an integer: a leading minus sign when negative.
pub open spec fn spec_dec_int(n: int) -> Seq<char> {
    if n < 0 {
        seq!['-'] + spec_dec_nat((-n) as nat)
    } else {
        spec_dec_nat(n as nat)
    }
}

fn digit_char(d: u64) -> (c: char)
    requires
        d < 10,
    ensures
        c == spec_digit(d as int),
{
    if d == 0 {
        '0'
    } else if d == 1 {
        '1'
    } else if d == 2 {
        '2'
    } else if d == 3 {
        '3'
    } else if d == 4 {
        '4'
    } else if d == 5 {
        '5'
    } else if d == 6 {
        '6'
    } else if d == 7 {
        '7'
    } else if d == 8 {
        '8'
    } else {
        '9'
    }
}

/// Whether a character is a decimal digit.
pub open spec fn spec_is_digit(c: char) -> bool {
    '0' <= c && c <= '9'
}

/// Whether every character is a decimal digit.
pub open spec fn spec_all_digits(s: Seq<char>) -> bool {
    forall|k: int| 0 <= k < s.len() ==> spec_is_digit(#[trigger] s[k])
}

/// The value of a digit string, most significant first.
pub open spec fn spec_digits_val(s: Seq<char>) -> int
    decreases s.len(),
{
    if s.len() == 0 {
        0
    } else {
        spec_digits_val(s.drop_last()) * 10 + ((s.last() as u32) - 48)
    }
}

/// The number a string denotes: an optional leading `+`, then one or more
/// digits; anything else denotes nothing.
pub open spec fn spec_parse_nat(s: Seq<char>) -> Option<int> {
    let t = if s.len() > 0 && s[0] == '+' {
        s.drop_first()
    } else {
        s
    };
    if t.len() == 0 || !spec_all_digits(t) {
        None
    } else {
        Some(spec_digits_val(t))
    }
}

pub proof fn lemma_digits_val_nonneg(s: Seq<char>)
    requires
        spec_all_digits(s),
    ensures
        spec_digits_val(s) >= 0,
    decreases s.len(),
{
    if s.len() > 0 {
        assert(spec_all_digits(s.drop_last())) by {
            assert(forall|k: int|
                0 <= k < s.len() - 1 ==> #[trigger] s.drop_last()[k] == s[k]);
        }
        lemma_digits_val_nonneg(s.drop_last());
    }
}

/// More digits never shrink the value: any digit prefix is a lower bound.
pub proof fn lemma_digits_val_prefix(s: Seq<char>, i: int)
    requires
        spec_all_digits(s),
        0 <= i <= s.len(),
    ensures
        spec_digits_val(s) >= spec_digits_val(s.take(i)),
    decreases s.len() - i,
{
    if i < s.len() {
        lemma_digits_val_prefix(s, i + 1);
        assert(s.take(i + 1).drop_last() =~= s.take(i));
        assert(s.take(i + 1).last() == s[i]);
        assert(spec_all_digits(s.take(i))) by {
            assert(forall|k: int| 0 <= k < i ==> #[trigger] s.take(i)[k] == s[k]);
        }
        lemma_digits_val_nonneg(s.take(i));
    } else {
        assert(s.take(i) =~= s);
    }
}

fn char_digit(c: char) -> (r: Option<u8>)
    ensures
        (match r {
            Some(d) => spec_is_digit(c) && d as int == (c as u32) - 48,
            None => !spec_is_digit(c),
        }),
{
    if '0' <= c && c <= '9' {
        Some((c as u8) - 48)
    } else {
        None
    }
}

/// Parses a selection index: an optional `+`, then digits, denoting a value
/// between one and `max`. Anything else — or a value out of that range —
/// yields nothing.
pub fn parse_index(s: &str, max: usize) -> (r: Option<usize>)
    ensures
        (match r {
            Some(v) => spec_parse_nat(s@) == Some(v as int) && 1 <= v <= max,
            None => !(spec_parse_nat(s@) matches Some(v) && 1 <= v && v <= max),
        }),
{
    let len = s.unicode_len();
    let start: usize = if len > 0 && s.get_char(0) == '+' {
        1
    } else {
        0
    };
    let ghost t = if s@.len() > 0 && s@[0] == '+' {
        s@.drop_first()
    } else {
        s@
    };
    proof {
        assert(t =~= s@.skip(start as int));
    }
    if start >= len {
        proof {
            assert(t.len() == 0);
        }
        return None;
    }
    let max128: u128 = max as u128;
    let mut acc: u128 = 0;
    let mut i: usize = start;
    while i < len
        invariant
            len == s@.len(),
            start <= i <= len,
            t == s@.skip(start as int),
            t.len() == len - start,
            t.len() > 0,
            spec_parse_nat(s@) == (if spec_all_digits(t) {
                Some(spec_digits_val(t))
            } else {
                None
            }),
            spec_all_digits(t.take(i - start)),
            acc as int == spec_digits_val(t.take(i - start)),
            acc <= max128,
            max128 == max as u128,
        decreases len - i,
    {
        let c = s.get_char(i);
        proof {
            assert(t[i - start] == s@[i as int]);
        }
        let d = match char_digit(c) {
            Some(d) => d,
            None => {
                proof {
                    assert(!spec_is_digit(t[i - start]));
                    assert(!spec_all_digits(t));
                    assert(spec_parse_nat(s@) is None);
                }
                return None;
            },
        };
        let ghost prev = t.take(i - start);
        acc = acc * 10 + (d as u128);
        i += 1;
        proof {
            assert(t.take(i - start).drop_last() =~= prev);
            assert(t.take(i - start).last() == t[i - start - 1]);
            assert(spec_all_digits(t.take(i - start))) by {
                assert(forall|k: int|
                    0 <= k < i - start - 1 ==> #[trigger] t.take(i - start)[k] == prev[k]);
            }
        }
        if acc > max128 {
            proof {
                assert(spec_digits_val(t.take(i - start)) > max as int);
                if spec_all_digits(t) {
                    lemma_digits_val_prefix(t, i - start);
                    assert(spec_digits_val(t) > max as int);
                }
                assert(!(spec_parse_nat(s@) matches Some(v) && 1 <= v && v <= max));
            }
            return None;
        }
    }
    proof {
        assert(t.take(len - start) =~= t);
    }
    if acc == 0 {
        return None;
    }
    Some(acc as usize)
}

/// The first position at or after `i` holding the character, or the length.
pub open spec fn spec_find_char(s: Seq<char>, i: int, c: char) -> int
    decreases s.len() - i,
    when 0 <= i <= s.len()
{
    if i >= s.len() {
        i
    } else if s[i] == c {
        i
    } else {
        spec_find_char(s, i + 1, c)
    }
}

pub proof fn lemma_find_char_bounds(s: Seq<char>, i: int, c: char)
    requires
        0 <= i <= s.len(),
    ensures
        i <= spec_find_char(s, i, c) <= s.len(),
    decreases s.len() - i,
{
    if i < s.len() && s[i] != c {
        lemma_find_char_bounds(s, i + 1, c);
    }
}

fn find_char(s: &str, from: usize, c: char) -> (r: usize)
    requires
        from <= s@.len(),
    ensures
        r == spec_find_char(s@, from as int, c),
        from <= r <= s@.len(),
{
    let len = s.unicode_len();
    let mut j = from;
    loop
        invariant_except_break
            spec_find_char(s@, from as int, c) == spec_find_char(s@, j as int, c),
        invariant
            len == s@.len(),
            from <= j <= len,
        ensures
            from <= j <= len,
            j == spec_find_char(s@, from as int, c),
        decreases len - j,
    {
        if j >= len {
            break ;
        }
        if s.get_char(j) == c {
            break ;
        }
        j += 1;
    }
    j
}

/// The parts of a string around a separator, as the separator splits it: a
/// string without the separator is one part; a trailing separator yields a
/// final empty part.
pub open spec fn spec_split(s: Seq<char>, c: char) -> Seq<Seq<char>>
    decreases s.len(),
    via spec_split_dec
{
    let d = spec_find_char(s, 0, c);
    if d >= s.len() {
        seq![s]
    } else {
        seq![s.take(d)] + spec_split(s.skip(d + 1), c)
    }
}

#[via_fn]
proof fn spec_split_dec(s: Seq<char>, c: char) {
    lemma_find_char_bounds(s, 0, c);
}

/// One selection part: a single one-based index, or an inclusive range
/// `a-b`, each between one and `max` after trimming. A range whose start
/// exceeds its end is valid and selects nothing.
pub open spec fn spec_parse_part(p: Seq<char>, max: int) -> Option<(int, int)> {
    let t = spec_trim(p);
    let d = spec_find_char(t, 0, '-');
    if d >= t.len() {
        match spec_parse_nat(t) {
            Some(v) => if 1 <= v && v <= max {
                Some((v, v))
            } else {
                None
            },
            None => None,
        }
    } else if spec_find_char(t, d + 1, '-') < t.len() {
        None
    } else {
        match (spec_parse_nat(t.take(d)), spec_parse_nat(t.skip(d + 1))) {
            (Some(a), Some(b)) => if 1 <= a && a <= max && 1 <= b && b <= max {
                Some((a, b))
            } else {
                None
            },
            _ => None,
        }
    }
}

fn parse_part(part: &str, max: usize) -> (r: Option<(usize, usize)>)
    ensures
        (match r {
            Some(ab) => spec_parse_part(part@, max as int) == Some((ab.0 as int, ab.1 as int))
                && 1 <= ab.0 <= max && 1 <= ab.1 <= max,
            None => spec_parse_part(part@, max as int) is None,
        }),
{
    let t = trim_str(part);
    let tlen = t.unicode_len();
    let d = find_char(t, 0, '-');
    if d >= tlen {
        match parse_index(t, max) {
            Some(v) => Some((v, v)),
            None => None,
        }
    } else if find_char(t, d + 1, '-') < tlen {
        None
    } else {
        let a_str = t.substring_char(0, d);
        let b_str = t.substring_char(d + 1, tlen);
        proof {
            assert(a_str@ =~= spec_trim(part@).take(d as int));
            assert(b_str@ =~= spec_trim(part@).skip(d + 1));
        }
        match parse_index(a_str, max) {
            Some(a) => match parse_index(b_str, max) {
                Some(b) => Some((a, b)),
                None => None,
            },
            None => None,
        }
    }
}

/// Whether every part of the selection string is valid.
pub open spec fn spec_selection_ok(s: Seq<char>, max: int) -> bool {
    forall|k: int|
        0 <= k < spec_split(s, ',').len() ==> spec_parse_part(
            #[trigger] spec_split(s, ',')[k],
            max,
        ) is Some
}

/// Whether the zero-based index `n` is selected by the selection string.
pub open spec fn spec_selected(s: Seq<char>, max: int, n: int) -> bool {
    exists|k: int|
        0 <= k < spec_split(s, ',').len() && (spec_parse_part(
            #[trigger] spec_split(s, ',')[k],
            max,
        ) matches Some(ab) && ab.0 <= n + 1 <= ab.1)
}

/// The selection error: a part of the selection string is malformed or out
/// of range.
#[derive(Debug, PartialEq, Eq)]
pub enum SelectionError {
    Invalid,
}

impl SelectionError {
    /// The error's display text.
    pub fn message(&self) -> (r: String)
        ensures
            r@ == "Invalid selection"@,
    {
        "Invalid selection".to_owned()
    }
}

/// Whether a sequence is strictly increasing.
pub open spec fn spec_sorted_strict(v: Seq<usize>) -> bool {
    forall|i: int, j: int| 0 <= i < j < v.len() ==> v[i] < v[j]
}

/// Inserts a value into a strictly sorted vector, keeping it sorted and
/// without duplicates.
fn insert_sorted_unique(v: &mut Vec<usize>, x: usize)
    requires
        spec_sorted_strict(old(v)@),
    ensures
        spec_sorted_strict(final(v)@),
        forall|y: usize| final(v)@.contains(y) <==> (old(v)@.contains(y) || y == x),
{
    let n = v.len();
    let mut i: usize = 0;
    while i < n && v[i] < x
        invariant
            n == v@.len(),
            i <= n,
            spec_sorted_strict(v@),
            v@ == old(v)@,
            forall|k: int| 0 <= k < i ==> v@[k] < x,
        decreases n - i,
    {
        i += 1;
    }
    if i < n && v[i] == x {
        proof {
            assert(v@ =~= old(v)@);
            assert(v@.contains(x)) by {
                assert(v@[i as int] == x);
            }
        }
        return ;
    }
    let ghost before = v@;
    v.insert(i, x);
    proof {
        assert forall|ii: int, jj: int| 0 <= ii < jj < v@.len() implies v@[ii] < v@[jj] by {
            if jj < i {
            } else if ii < i && jj == i {
            } else if ii == i {
                assert(v@[jj] == before[jj - 1]);
                assert(before[jj - 1] >= x);
                if before[jj - 1] == x {
                    assert(false);
                }
            } else if ii > i {
                assert(v@[ii] == before[ii - 1]);
                assert(v@[jj] == before[jj - 1]);
            } else {
                assert(v@[ii] == before[ii]);
                assert(v@[jj] == before[jj - 1]);
                assert(before[ii] < x);
                if jj - 1 == ii {
                    assert(v@[jj] == before[ii]);
                    assert(false);
                } else {
                    assert(before[ii] < before[jj - 1]);
                }
            }
        }
        assert forall|y: usize| v@.contains(y) implies (before.contains(y) || y == x) by {
            let k = choose|k: int| 0 <= k < v@.len() && v@[k] == y;
            if k < i {
                assert(before[k] == y);
            } else if k > i {
                assert(before[k - 1] == y);
            }
        }
        assert forall|y: usize| before.contains(y) || y == x implies v@.contains(y) by {
            if y == x {
                assert(v@[i as int] == x);
            } else {
                let k = choose|k: int| 0 <= k < before.len() && before[k] == y;
                if k < i {
                    assert(v@[k] == y);
                } else {
                    assert(v@[k + 1] == y);
                }
            }
        }
    }
}

/// Parses an interactive selection such as `1,3` or `1-3`: one-based
/// indices and inclusive ranges, separated by commas. Succeeds exactly when
/// every part is valid, and hands back the selected zero-based indices,
/// strictly sorted and without duplicates.
pub fn parse_selection(input: &str, max: usize) -> (r: Result<Vec<usize>, SelectionError>)
    ensures
        r is Ok <==> spec_selection_ok(input@, max as int),
        r matches Ok(v) ==> ({
            &&& spec_sorted_strict(v@)
            &&& forall|y: usize| v@.contains(y) <==> spec_selected(input@, max as int, y as int)
            &&& forall|k: int| 0 <= k < v@.len() ==> 0 < (#[trigger] v@[k] as int) + 1 <= max
        }),
{
    let ghost all_parts = spec_split(input@, ',');
    let len = input.unicode_len();
    let mut out: Vec<usize> = Vec::new();
    let mut i: usize = 0;
    let ghost mut pidx: int = 0;
    proof {
        assert(input@.skip(0) =~= input@);
        assert(all_parts =~= all_parts.take(pidx) + spec_split(input@.skip(0), ','));
    }
    loop
        invariant_except_break
            len == input@.len(),
            i <= len,
            0 <= pidx <= all_parts.len(),
            all_parts == all_parts.take(pidx) + spec_split(input@.skip(i as int), ','),
            forall|k: int| 0 <= k < pidx ==> spec_parse_part(#[trigger] all_parts[k], max as int)
                is Some,
            spec_sorted_strict(out@),
            forall|y: usize|
                out@.contains(y) <==> exists|k: int|
                    0 <= k < pidx && (spec_parse_part(#[trigger] all_parts[k], max as int)
                        matches Some(ab) && ab.0 <= y + 1 <= ab.1),
            forall|y: usize| out@.contains(y) ==> 0 < y as int + 1 <= max,
        invariant
            all_parts == spec_split(input@, ','),
        ensures
            spec_selection_ok(input@, max as int),
            spec_sorted_strict(out@),
            forall|y: usize| out@.contains(y) <==> spec_selected(input@, max as int, y as int),
            forall|y: usize| out@.contains(y) ==> 0 < y as int + 1 <= max,
        decreases len - i + 1,
    {
        let ghost rest = input@.skip(i as int);
        let j = find_char(input, i, ',');
        let ghost d = spec_find_char(rest, 0, ',');
        proof {
            lemma_find_char_shift(input@, i as int, ',');
            assert(d == j - i);
            if d >= rest.len() {
                assert(spec_split(rest, ',') =~= seq![rest]);
            } else {
                assert(rest.skip(d + 1) =~= input@.skip(j + 1));
            }
            assert(rest.take(d) =~= input@.subrange(i as int, j as int));
            assert(all_parts[pidx] == spec_split(rest, ',')[0]);
        }
        let part = input.substring_char(i, j);
        let ab = match parse_part(part, max) {
            Some(ab) => ab,
            None => {
                proof {
                    assert(spec_split(input@.skip(i as int), ',').len() >= 1);
                    assert(0 <= pidx < all_parts.len());
                    assert(!spec_selection_ok(input@, max as int)) by {
                        assert(spec_parse_part(spec_split(input@, ',')[pidx], max as int)
                            is None);
                    }
                }
                return Err(SelectionError::Invalid);
            },
        };
        let mut z: usize = ab.0 - 1;
        while z < ab.1
            invariant
                1 <= ab.0 <= max,
                1 <= ab.1 <= max,
                ab.0 - 1 <= z,
                z <= ab.1 || z == ab.0 - 1,
                spec_sorted_strict(out@),
                forall|y: usize|
                    out@.contains(y) <==> ((exists|k: int|
                        0 <= k < pidx && (spec_parse_part(#[trigger] all_parts[k], max as int)
                            matches Some(p) && p.0 <= y + 1 <= p.1)) || (ab.0 <= y as int + 1
                        <= z as int)),
                forall|y: usize| out@.contains(y) ==> 0 < y as int + 1 <= max,
            decreases ab.1 - z,
        {
            insert_sorted_unique(&mut out, z);
            z += 1;
        }
        proof {
            assert forall|y: usize|
                out@.contains(y) <==> ((exists|k: int|
                    0 <= k < pidx && (spec_parse_part(#[trigger] all_parts[k], max as int)
                        matches Some(p) && p.0 <= y + 1 <= p.1)) || (ab.0 <= y as int + 1
                    <= ab.1 as int)) by {
                if z == ab.0 - 1 && ab.0 as int - 1 >= ab.1 as int {
                } else {
                    assert(z == ab.1);
                }
            }
        }
        proof {
            pidx = pidx + 1;
            assert(all_parts.take(pidx).drop_last() =~= all_parts.take(pidx - 1));
            assert forall|y: usize|
                out@.contains(y) implies exists|k: int|
                    0 <= k < pidx && (spec_parse_part(#[trigger] all_parts[k], max as int)
                        matches Some(p) && p.0 <= y + 1 <= p.1) by {
                if ab.0 <= y + 1 <= ab.1 {
                    assert(spec_parse_part(all_parts[pidx - 1], max as int) == Some(
                        (ab.0 as int, ab.1 as int),
                    ));
                }
            }
        }
        if j >= len {
            proof {
                assert(pidx == all_parts.len());
                assert(all_parts.take(pidx) =~= all_parts);
            }
            break ;
        }
        i = j + 1;
        proof {
            assert(all_parts == all_parts.take(pidx) + spec_split(input@.skip(i as int), ','));
        }
    }
    proof {
        assert forall|k: int| 0 <= k < out@.len() implies 0 < (#[trigger] out@[k] as int) + 1
            <= max as int by {
            assert(out@.contains(out@[k]));
        }
    }
    Ok(out)
}

/// Finding a character in a suffix mirrors finding it in the whole string.
pub proof fn lemma_find_char_shift(s: Seq<char>, i: int, c: char)
    requires
        0 <= i <= s.len(),
    ensures
        spec_find_char(s, i, c) - i == spec_find_char(s.skip(i), 0, c),
    decreases s.len() - i,
{
    lemma_find_char_shift_from(s, i, i, c);
}

proof fn lemma_find_char_shift_from(s: Seq<char>, base: int, i: int, c: char)
    requires
        0 <= base <= i <= s.len(),
    ensures
        spec_find_char(s, i, c) - base == spec_find_char(s.skip(base), i - base, c),
    decreases s.len() - i,
{
    let t = s.skip(base);
    if i >= s.len() {
    } else {
        assert(t[i - base] == s[i]);
        if s[i] == c {
        } else {
            lemma_find_char_shift_from(s, base, i + 1, c);
        }
    }
}

/// Renders a non-negative number in decimal.
pub fn u64_to_string(n: u64) -> (r: String)
    ensures
        r@ == spec_dec_nat(n as nat),
    decreases n,
{
    let d = digit_char(n % 10);
    if n < 10 {
        let mut s = String::new();
        push_char(&mut s, d);
        s
    } else {
        let mut s = u64_to_string(n / 10);
        push_char(&mut s, d);
        s
    }
}

/// Whether a character counts as whitespace, as `char::is_whitespace`
/// decides it.
pub uninterp spec fn is_space(c: char) -> bool;

/// Relies on `char::is_whitespace`: the Unicode `White_Space` property, a
/// function of the character alone. The blank, tab, line feed and carriage
/// return have it; the printable ASCII characters beyond the blank do not.
#[verifier::external_body]
pub(crate) fn char_is_space(c: char) -> (r: bool)
    ensures
        r == is_space(c),
        (c == ' ' || c == '\t' || c == '\n' || c == '\r') ==> r,
        (' ' < c && c <= '~') ==> !r,
{
    c.is_whitespace()
}

/// The number of leading whitespace characters.
pub open spec fn spec_first_non_space(s: Seq<char>) -> int
    decreases s.len(),
{
    if s.len() == 0 {
        0
    } else if !is_space(s[0]) {
        0
    } else {
        1 + spec_first_non_space(s.drop_first())
    }
}

/// Where the trailing whitespace begins.
pub open spec fn spec_end_non_space(s: Seq<char>) -> int
    decreases s.len(),
{
    if s.len() == 0 {
        0
    } else if !is_space(s.last()) {
        s.len() as int
    } else {
        spec_end_non_space(s.drop_last())
    }
}

/// The string without its leading and trailing whitespace.
pub open spec fn spec_trim(s: Seq<char>) -> Seq<char> {
    let b = spec_first_non_space(s);
    let e = spec_end_non_space(s);
    if b < e {
        s.subrange(b, e)
    } else {
        Seq::empty()
    }
}

pub proof fn lemma_end_non_space_bounds(s: Seq<char>)
    ensures
        0 <= spec_end_non_space(s) <= s.len(),
    decreases s.len(),
{
    if s.len() > 0 && is_space(s.last()) {
        lemma_end_non_space_bounds(s.drop_last());
    }
}

/// A scan that walked over `b` leading whitespace characters and stopped at
/// the end or at a non-whitespace character found the number of leading
/// whitespace characters.
pub proof fn lemma_first_non_space_scan(s: Seq<char>, b: int)
    requires
        0 <= b <= s.len(),
        forall|k: int| 0 <= k < b ==> is_space(#[trigger] s[k]),
        b == s.len() || !is_space(s[b]),
    ensures
        spec_first_non_space(s) == b,
    decreases s.len(),
{
    if s.len() == 0 {
    } else if !is_space(s[0]) {
        assert(b == 0);
    } else {
        assert(is_space(s[0]));
        assert(b != 0);
        let t = s.drop_first();
        assert forall|k: int| 0 <= k < b - 1 implies is_space(#[trigger] t[k]) by {
            assert(t[k] == s[k + 1]);
        }
        assert(b - 1 == t.len() || !is_space(t[b - 1]));
        lemma_first_non_space_scan(t, b - 1);
    }
}

/// A scan that walked back over the trailing whitespace characters and
/// stopped at the start or at a non-whitespace character found where the
/// trailing whitespace begins.
pub proof fn lemma_end_non_space_scan(s: Seq<char>, e: int)
    requires
        0 <= e <= s.len(),
        forall|k: int| e <= k < s.len() ==> is_space(#[trigger] s[k]),
        e == 0 || !is_space(s[e - 1]),
    ensures
        spec_end_non_space(s) == e,
    decreases s.len(),
{
    if s.len() == 0 {
    } else if !is_space(s.last()) {
        assert(e == s.len());
    } else {
        assert(e < s.len());
        let t = s.drop_last();
        assert forall|k: int| e <= k < t.len() implies is_space(#[trigger] t[k]) by {
            assert(t[k] == s[k]);
        }
        lemma_end_non_space_scan(t, e);
    }
}

/// The string without its leading and trailing whitespace.
pub fn trim_str<'a>(s: &'a str) -> (r: &'a str)
    ensures
        r@ == spec_trim(s@),
{
    let len = s.unicode_len();
    let mut b: usize = 0;
    loop
        invariant
            len == s@.len(),
            b <= len,
            forall|k: int| 0 <= k < b ==> is_space(#[trigger] s@[k]),
        ensures
            b <= len,
            forall|k: int| 0 <= k < b ==> is_space(#[trigger] s@[k]),
            b == len || !is_space(s@[b as int]),
        decreases len - b,
    {
        if b >= len {
            break ;
        }
        if !char_is_space(s.get_char(b)) {
            break ;
        }
        b += 1;
    }
    let mut e: usize = len;
    loop
        invariant
            len == s@.len(),
            b <= e <= len,
            forall|k: int| e <= k < len ==> is_space(#[trigger] s@[k]),
        ensures
            b <= e <= len,
            forall|k: int| e <= k < len ==> is_space(#[trigger] s@[k]),
            e == b || !is_space(s@[e - 1]),
        decreases e,
    {
        if e <= b {
            break ;
        }
        if !char_is_space(s.get_char(e - 1)) {
            break ;
        }
        e -= 1;
    }
    proof {
        lemma_first_non_space_scan(s@, b as int);
        if b < len {
            if e == b {
                assert(is_space(s@[b as int]));
                assert(false);
            }
            lemma_end_non_space_scan(s@, e as int);
        } else {
            lemma_end_non_space_bounds(s@);
        }
    }
    s.substring_char(b, e)
}

/// Whether a character is an ASCII letter.
pub open spec fn spec_is_ascii_alpha(c: char) -> bool {
    ('a' <= c && c <= 'z') || ('A' <= c && c <= 'Z')
}

fn is_ascii_alpha(c: char) -> (r: bool)
    ensures
        r == spec_is_ascii_alpha(c),
{
    ('a' <= c && c <= 'z') || ('A' <= c && c <= 'Z')
}

/// Where scanning a terminal control sequence ends: just past the first
/// ASCII letter at or after `i`, or the end of the string.
pub open spec fn spec_csi_end(s: Seq<char>, i: int) -> int
    decreases s.len() - i,
    when 0 <= i <= s.len()
{
    if i >= s.len() {
        i
    } else if spec_is_ascii_alpha(s[i]) {
        i + 1
    } else {
        spec_csi_end(s, i + 1)
    }
}

pub proof fn lemma_csi_end_bounds(s: Seq<char>, i: int)
    requires
        0 <= i <= s.len(),
    ensures
        i <= spec_csi_end(s, i) <= s.len(),
    decreases s.len() - i,
{
    if i < s.len() && !spec_is_ascii_alpha(s[i]) {
        lemma_csi_end_bounds(s, i + 1);
    }
}

/// What remains of a string from position `i` on after the terminal escape
/// sequences are removed: an escape character swallows the character after
/// it, and an escape followed by `[` swallows everything up to and including
/// the first ASCII letter.
pub open spec fn spec_strip_from(s: Seq<char>, i: int) -> Seq<char>
    decreases s.len() - i,
    when 0 <= i <= s.len()
    via spec_strip_from_dec
{
    if i >= s.len() {
        Seq::empty()
    } else if s[i] == '\x1b' {
        if i + 1 >= s.len() {
            Seq::empty()
        } else if s[i + 1] == '[' {
            spec_strip_from(s, spec_csi_end(s, i + 2))
        } else {
            spec_strip_from(s, i + 2)
        }
    } else {
        seq![s[i]] + spec_strip_from(s, i + 1)
    }
}

#[via_fn]
proof fn spec_strip_from_dec(s: Seq<char>, i: int) {
    if 0 <= i && i < s.len() && s[i] == '\x1b' && i + 1 < s.len() && s[i + 1] == '[' {
        lemma_csi_end_bounds(s, i + 2);
    }
}

/// The string with the terminal escape sequences removed.
pub open spec fn spec_strip_ansi(s: Seq<char>) -> Seq<char> {
    spec_strip_from(s, 0)
}

/// Removes terminal escape sequences: an escape character and the character
/// after it are dropped, and an escape followed by `[` drops everything up
/// to and including the letter that closes the control sequence.
pub fn strip_ansi_codes(input: &str) -> (r: String)
    ensures
        r@ == spec_strip_ansi(input@),
{
    let len = input.unicode_len();
    let mut out = String::new();
    let mut i: usize = 0;
    proof {
        assert(Seq::<char>::empty() + spec_strip_from(input@, 0) =~= spec_strip_from(input@, 0));
    }
    while i < len
        invariant
            len == input@.len(),
            i <= len,
            spec_strip_ansi(input@) == out@ + spec_strip_from(input@, i as int),
        decreases len - i,
    {
        let ghost i0 = i as int;
        let c = input.get_char(i);
        if c == '\x1b' {
            if i + 1 >= len {
                i = len;
            } else if input.get_char(i + 1) == '[' {
                let mut j = i + 2;
                loop
                    invariant_except_break
                        spec_csi_end(input@, i0 + 2) == spec_csi_end(input@, j as int),
                    invariant
                        len == input@.len(),
                        i0 + 2 <= j <= len,
                    ensures
                        i0 + 2 <= j <= len,
                        j == spec_csi_end(input@, i0 + 2),
                    decreases len - j,
                {
                    if j >= len {
                        break ;
                    }
                    let cj = input.get_char(j);
                    if is_ascii_alpha(cj) {
                        j += 1;
                        break ;
                    }
                    j += 1;
                }
                i = j;
            } else {
                i = i + 2;
            }
        } else {
            let ghost out0 = out@;
            push_char(&mut out, c);
            proof {
                assert(out@ =~= out0 + seq![input@[i0]]);
                assert(out0 + (seq![input@[i0]] + spec_strip_from(input@, i0 + 1)) =~= out@
                    + spec_strip_from(input@, i0 + 1));
            }
            i = i + 1;
        }
    }
    out
}

/// Renders a signed number in decimal.
pub fn i32_to_string(n: i32) -> (r: String)
    ensures
        r@ == spec_dec_int(n as int),
{
    if n < 0 {
        let mut s = String::new();
        push_char(&mut s, '-');
        let magnitude: u64 = (-(n as i64)) as u64;
        let digits = u64_to_string(magnitude);
        s.append(digits.as_str());
        proof {
            assert(s@ =~= spec_dec_int(n as int));
        }
        s
    } else {
        u64_to_string(n as u64)
    }
}

} // verus!

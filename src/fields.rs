//! Comma-separated field lists and their fixed-length conversions.
use vstd::prelude::*;

verus! {

/// Why a placement or a catalog could not be turned into scene items.
#[derive(Debug, Clone, Copy, PartialEq, Eq, Structural)]
pub enum FormatError {
    /// A field list held `found` entries where `expected` were needed.
    FieldCount { expected: usize, found: usize },
    /// An instance index was not a decimal number that fits in `usize`.
    BadIndex,
    /// An instance referred to catalog entry `index`, which does not exist.
    IndexOutOfRange { index: usize },
    /// The catalog holds no component, so there is no root.
    EmptyCatalog,
    /// An instance chain reached a component that was already on its own path.
    Cycle,
}

/// The fields of `s`, split at every comma. An empty text holds one empty
/// field, and `n` commas always give `n + 1` fields.
pub open spec fn fields(s: Seq<char>) -> Seq<Seq<char>>
    decreases s.len(),
{
    if s.len() == 0 {
        seq![Seq::<char>::empty()]
    } else {
        let f = fields(s.drop_last());
        if s.last() == ',' {
            f.push(Seq::<char>::empty())
        } else {
            f.update(f.len() - 1, f.last().push(s.last()))
        }
    }
}

pub proof fn lemma_fields_nonempty(s: Seq<char>)
    ensures
        fields(s).len() >= 1,
    decreases s.len(),
{
    if s.len() > 0 {
        lemma_fields_nonempty(s.drop_last());
    }
}

/// Splits `s` at every comma, keeping empty fields.
pub fn split_fields(s: &str) -> (r: Vec<String>)
    ensures
        r@.map_values(|x: String| x@) == fields(s@),
{
    let n = s.unicode_len();
    let mut done: Vec<String> = Vec::new();
    let mut start: usize = 0;
    let mut i: usize = 0;
    proof {
        assert(s@.subrange(0, 0) =~= Seq::<char>::empty());
        assert(done@.map_values(|x: String| x@).push(s@.subrange(0, 0)) =~= fields(
            Seq::<char>::empty(),
        ));
    }
    while i < n
        invariant
            n == s@.len(),
            start <= i <= n,
            done@.map_values(|x: String| x@).push(s@.subrange(start as int, i as int)) == fields(
                s@.subrange(0, i as int),
            ),
        decreases n - i,
    {
        let c = s.get_char(i);
        let ghost prefix = s@.subrange(0, i as int);
        let ghost next = s@.subrange(0, i + 1);
        proof {
            lemma_fields_nonempty(prefix);
            assert(next.drop_last() =~= prefix);
            assert(next.last() == c);
        }
        if c == ',' {
            let piece = String::from_str(s.substring_char(start, i));
            done.push(piece);
            proof {
                assert(s@.subrange(i + 1, i + 1) =~= Seq::<char>::empty());
                assert(done@.map_values(|x: String| x@) =~= old_done_view(done@));
            }
            start = i + 1;
        } else {
            proof {
                assert(s@.subrange(start as int, i + 1) =~= s@.subrange(start as int, i as int).push(c));
            }
        }
        i = i + 1;
        proof {
            assert(s@.subrange(0, i as int) =~= next);
        }
    }
    let last = String::from_str(s.substring_char(start, n));
    done.push(last);
    proof {
        assert(s@.subrange(0, n as int) =~= s@);
        assert(done@.map_values(|x: String| x@) =~= old_done_view(done@));
    }
    done
}

spec fn old_done_view(v: Seq<String>) -> Seq<Seq<char>> {
    v.drop_last().map_values(|x: String| x@).push(v.last()@)
}

/// Takes a list of exactly three values into an array.
pub fn to_arr_3<T>(v: Vec<T>) -> (r: Result<[T; 3], FormatError>)
    ensures
        v@.len() == 3 ==> (r matches Ok(a) && a@ == v@),
        v@.len() != 3 ==> r == Err::<[T; 3], FormatError>(
            FormatError::FieldCount { expected: 3, found: v@.len() as usize },
        ),
{
    let mut v = v;
    let ghost orig = v@;
    if v.len() != 3 {
        return Err(FormatError::FieldCount { expected: 3, found: v.len() });
    }
    let c = v.pop().unwrap();
    let b = v.pop().unwrap();
    let a = v.pop().unwrap();
    let r = [a, b, c];
    assert(r@ =~= orig);
    Ok(r)
}

} // verus!

verus! {

/// Takes a list of exactly nine values into an array.
pub fn to_arr_9<T>(v: Vec<T>) -> (r: Result<[T; 9], FormatError>)
    ensures
        v@.len() == 9 ==> (r matches Ok(a) && a@ == v@),
        v@.len() != 9 ==> r == Err::<[T; 9], FormatError>(
            FormatError::FieldCount { expected: 9, found: v@.len() as usize },
        ),
{
    let mut v = v;
    let ghost orig = v@;
    if v.len() != 9 {
        return Err(FormatError::FieldCount { expected: 9, found: v.len() });
    }
    let x8 = v.pop().unwrap();
    let x7 = v.pop().unwrap();
    let x6 = v.pop().unwrap();
    let x5 = v.pop().unwrap();
    let x4 = v.pop().unwrap();
    let x3 = v.pop().unwrap();
    let x2 = v.pop().unwrap();
    let x1 = v.pop().unwrap();
    let x0 = v.pop().unwrap();
    let r = [x0, x1, x2, x3, x4, x5, x6, x7, x8];
    assert(r@ =~= orig);
    Ok(r)
}

} // verus!

verus! {

pub open spec fn is_digit(c: char) -> bool {
    '0' <= c <= '9'
}

/// The value of a string of decimal digits.
pub open spec fn digits_value(s: Seq<char>) -> nat
    decreases s.len(),
{
    if s.len() == 0 {
        0
    } else {
        digits_value(s.drop_last()) * 10 + ((s.last() as u32) - ('0' as u32)) as nat
    }
}

/// The digits of an index: the text after an optional leading `+`.
pub open spec fn index_digits(s: Seq<char>) -> Seq<char> {
    if s.len() > 0 && s[0] == '+' {
        s.drop_first()
    } else {
        s
    }
}

/// The catalog position that `s` spells: one or more decimal digits after an
/// optional `+`, whose value fits in `usize`.
pub open spec fn index_value(s: Seq<char>) -> Option<nat> {
    let d = index_digits(s);
    if d.len() > 0 && (forall|i: int| 0 <= i < d.len() ==> is_digit(#[trigger] d[i]))
        && digits_value(d) <= usize::MAX {
        Some(digits_value(d))
    } else {
        None
    }
}

proof fn lemma_digits_value_grows(s: Seq<char>, k: int)
    requires
        0 <= k <= s.len(),
        forall|i: int| 0 <= i < s.len() ==> is_digit(#[trigger] s[i]),
    ensures
        digits_value(s.subrange(0, k)) <= digits_value(s),
    decreases s.len() - k,
{
    if k < s.len() {
        lemma_digits_value_grows(s, k + 1);
        let t = s.subrange(0, k + 1);
        assert(t.drop_last() =~= s.subrange(0, k));
    } else {
        assert(s.subrange(0, k) =~= s);
    }
}

/// Reads a catalog position written in decimal.
pub fn parse_index(s: &str) -> (r: Option<usize>)
    ensures
        match index_value(s@) {
            Some(v) => r == Some(v as usize),
            None => r is None,
        },
{
    let n = s.unicode_len();
    let mut i: usize = 0;
    if n > 0 && s.get_char(0) == '+' {
        i = 1;
    }
    let ghost d = index_digits(s@);
    let ghost start = i as int;
    assert(d =~= s@.subrange(start, n as int));
    if i == n {
        return None;
    }
    let mut acc: usize = 0;
    while i < n
        invariant
            n == s@.len(),
            0 <= start <= i <= n,
            d == s@.subrange(start, n as int),
            d == index_digits(s@),
            forall|j: int| 0 <= j < i - start ==> is_digit(#[trigger] d[j]),
            acc == digits_value(d.subrange(0, i - start)),
        decreases n - i,
    {
        let c = s.get_char(i);
        let ghost t = d.subrange(0, i - start + 1);
        assert(t.drop_last() =~= d.subrange(0, i - start));
        if !('0' <= c && c <= '9') {
            assert(!is_digit(d[i - start]));
            return None;
        }
        let digit = (c as u32 - '0' as u32) as usize;
        if acc > (usize::MAX - digit) / 10 {
            proof {
                assert(forall|j: int| 0 <= j < i - start + 1 ==> is_digit(#[trigger] d[j]));
                assert(digits_value(t) > usize::MAX) by (nonlinear_arith)
                    requires
                        acc > (usize::MAX - digit) / 10,
                        digits_value(t) == acc * 10 + digit,
                        digit <= 9,
                ;
                if forall|j: int| 0 <= j < d.len() ==> is_digit(#[trigger] d[j]) {
                    lemma_digits_value_grows(d, i - start + 1);
                }
            }
            return None;
        }
        assert(acc * 10 + digit <= usize::MAX) by (nonlinear_arith)
            requires
                acc <= (usize::MAX - digit) / 10,
                digit <= 9,
        ;
        acc = acc * 10 + digit;
        i = i + 1;
    }
    assert(d.subrange(0, n - start) =~= d);
    Some(acc)
}

} // verus!

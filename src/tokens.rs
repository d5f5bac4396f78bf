//! Splitting a text payload into trimmed fields.
use vstd::prelude::*;
use vstd::string::StrSliceExecFns;
use crate::data::names_view;

verus! {

/// Fields are separated by a colon or a comma.
pub open spec fn is_separator(c: char) -> bool {
    c == ':' || c == ','
}

/// The characters of Unicode's White_Space property.
pub open spec fn is_white_space(c: char) -> bool {
    let v = c as u32;
    ||| 0x09 <= v <= 0x0d
    ||| v == 0x20
    ||| v == 0x85
    ||| v == 0xa0
    ||| v == 0x1680
    ||| 0x2000 <= v <= 0x200a
    ||| v == 0x2028
    ||| v == 0x2029
    ||| v == 0x202f
    ||| v == 0x205f
    ||| v == 0x3000
}

/// The fields of `s` between separators, empty ones included: one more
/// field than there are separators.
pub open spec fn fields(s: Seq<char>) -> Seq<Seq<char>>
    decreases s.len(),
{
    if s.len() == 0 {
        seq![Seq::empty()]
    } else {
        let f = fields(s.drop_last());
        if is_separator(s.last()) {
            f.push(Seq::empty())
        } else {
            f.update(f.len() - 1, f.last().push(s.last()))
        }
    }
}

pub open spec fn trim_start(s: Seq<char>) -> Seq<char>
    decreases s.len(),
{
    if s.len() > 0 && is_white_space(s[0]) {
        trim_start(s.drop_first())
    } else {
        s
    }
}

pub open spec fn trim_end(s: Seq<char>) -> Seq<char>
    decreases s.len(),
{
    if s.len() > 0 && is_white_space(s.last()) {
        trim_end(s.drop_last())
    } else {
        s
    }
}

/// `s` without leading and trailing white space.
pub open spec fn trim(s: Seq<char>) -> Seq<char> {
    trim_end(trim_start(s))
}

/// The trimmed fields of a payload.
pub open spec fn split_fields(s: Seq<char>) -> Seq<Seq<char>> {
    fields(s).map_values(|f: Seq<char>| trim(f))
}

/// The values that were read, in order; fields that did not hold a number
/// are left out.
pub open spec fn present_values(s: Seq<Option<u32>>) -> Seq<u32>
    decreases s.len(),
{
    if s.len() == 0 {
        Seq::empty()
    } else {
        match s.last() {
            Some(v) => present_values(s.drop_last()).push(v),
            None => present_values(s.drop_last()),
        }
    }
}

/// The samples of a payload, from what reading each field as a number gave:
/// a field that is not a number is dropped and is not a format failure.
pub fn keep_numbers(parsed: Vec<Option<u32>>) -> (r: Vec<u32>)
    ensures
        r@ == present_values(parsed@),
{
    let mut r: Vec<u32> = Vec::new();
    let mut i: usize = 0;
    while i < parsed.len()
        invariant
            i <= parsed@.len(),
            r@ == present_values(parsed@.take(i as int)),
        decreases parsed@.len() - i,
    {
        assert(parsed@.take(i + 1).drop_last() =~= parsed@.take(i as int));
        if let Some(v) = parsed[i] {
            r.push(v);
        }
        i = i + 1;
    }
    assert(parsed@.take(i as int) =~= parsed@);
    r
}

/// Relies on `char::is_whitespace`: membership in Unicode's White_Space
/// property.
#[verifier::external_body]
fn white(c: char) -> (r: bool)
    ensures
        r == is_white_space(c),
{
    c.is_whitespace()
}

proof fn lemma_fields_nonempty(s: Seq<char>)
    ensures
        fields(s).len() >= 1,
    decreases s.len(),
{
    if s.len() > 0 {
        lemma_fields_nonempty(s.drop_last());
    }
}

/// The characters `start .. end` of `s`, trimmed.
fn trimmed(s: &str, start: usize, end: usize) -> (r: String)
    requires
        start <= end <= s@.len(),
    ensures
        r@ == trim(s@.subrange(start as int, end as int)),
{
    let mut a = start;
    let mut more = a < end && white(s.get_char(a));
    while more
        invariant
            start <= a <= end <= s@.len(),
            more == (a < end && is_white_space(s@[a as int])),
            trim_start(s@.subrange(start as int, end as int)) == trim_start(
                s@.subrange(a as int, end as int),
            ),
        decreases end - a,
    {
        assert(s@.subrange(a as int, end as int).drop_first() =~= s@.subrange(
            a + 1,
            end as int,
        ));
        a = a + 1;
        more = a < end && white(s.get_char(a));
    }
    assert(trim_start(s@.subrange(a as int, end as int)) == s@.subrange(a as int, end as int));
    let mut b = end;
    let mut more = b > a && white(s.get_char(b - 1));
    while more
        invariant
            a <= b <= end <= s@.len(),
            more == (b > a && is_white_space(s@[b - 1])),
            trim_end(s@.subrange(a as int, end as int)) == trim_end(
                s@.subrange(a as int, b as int),
            ),
        decreases b - a,
    {
        assert(s@.subrange(a as int, b as int).drop_last() =~= s@.subrange(
            a as int,
            b - 1,
        ));
        b = b - 1;
        more = b > a && white(s.get_char(b - 1));
    }
    assert(trim_end(s@.subrange(a as int, b as int)) == s@.subrange(a as int, b as int));
    String::from_str(s.substring_char(a, b))
}

/// The fields of a payload, separated by `:` or `,`, each trimmed of white
/// space. A payload without separators is one field.
pub fn split(payload: &str) -> (r: Vec<String>)
    ensures
        names_view(r@) == split_fields(payload@),
{
    let len = payload.unicode_len();
    let mut out: Vec<String> = Vec::new();
    let mut start: usize = 0;
    let mut i: usize = 0;
    while i < len
        invariant
            len == payload@.len(),
            start <= i <= len,
            fields(payload@.take(i as int)).len() >= 1,
            out@.len() == fields(payload@.take(i as int)).len() - 1,
            names_view(out@) =~= fields(payload@.take(i as int)).drop_last().map_values(
                |f: Seq<char>| trim(f),
            ),
            fields(payload@.take(i as int)).last() =~= payload@.subrange(start as int, i as int),
        decreases len - i,
    {
        let c = payload.get_char(i);
        let ghost f = fields(payload@.take(i as int));
        assert(payload@.take(i + 1).drop_last() =~= payload@.take(i as int));
        assert(payload@.take(i + 1).last() == c);
        if c == ':' || c == ',' {
            let field = trimmed(payload, start, i);
            let ghost prev = out@;
            out.push(field);
            let ghost g = fields(payload@.take(i + 1));
            assert(g == f.push(Seq::empty()));
            assert(g.drop_last() =~= f);
            assert forall|j: int| 0 <= j < out@.len() implies #[trigger] names_view(out@)[j]
                == g.drop_last().map_values(|f: Seq<char>| trim(f))[j] by {
                if j < prev.len() {
                    assert(out@[j] == prev[j]);
                    assert(names_view(prev)[j] == f.drop_last().map_values(
                        |f: Seq<char>| trim(f),
                    )[j]);
                }
            }
            start = i + 1;
        } else {
            let ghost g = fields(payload@.take(i + 1));
            assert(g == f.update(f.len() - 1, f.last().push(c)));
            assert(g.drop_last() =~= f.drop_last());
        }
        i = i + 1;
        proof {
            lemma_fields_nonempty(payload@.take(i as int));
        }
    }
    let field = trimmed(payload, start, len);
    let ghost f = fields(payload@.take(len as int));
    let ghost prev = out@;
    out.push(field);
    assert(payload@.take(len as int) =~= payload@);
    assert forall|j: int| 0 <= j < out@.len() implies #[trigger] names_view(out@)[j]
        == split_fields(payload@)[j] by {
        if j < prev.len() {
            assert(out@[j] == prev[j]);
            assert(names_view(prev)[j] == f.drop_last().map_values(|f: Seq<char>| trim(f))[j]);
        }
    }
    assert(names_view(out@) =~= split_fields(payload@));
    out
}

} // verus!

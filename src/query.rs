use vstd::prelude::*;

use crate::text::push_char;

verus! {

/// Value of a hexadecimal digit, if `c` is one.
pub open spec fn hex_value(c: char) -> Option<nat> {
    if '0' <= c && c <= '9' {
        Some((c as nat - '0' as nat) as nat)
    } else if 'a' <= c && c <= 'f' {
        Some((c as nat - 'a' as nat + 10) as nat)
    } else if 'A' <= c && c <= 'F' {
        Some((c as nat - 'A' as nat + 10) as nat)
    } else {
        None
    }
}

/// Form decoding of one query component: `+` stands for a space and
/// `%XY` for the ASCII character with hexadecimal code `XY`. Any other
/// `%` makes the component malformed.
pub open spec fn decoded(s: Seq<char>) -> Option<Seq<char>>
    decreases s.len(),
{
    if s.len() == 0 {
        Some(Seq::empty())
    } else if s[0] == '+' {
        match decoded(s.drop_first()) {
            Some(r) => Some(seq![' '] + r),
            None => None,
        }
    } else if s[0] == '%' {
        if s.len() >= 3 && hex_value(s[1]).is_some() && hex_value(s[2]).is_some()
            && hex_value(s[1]).unwrap() * 16 + hex_value(s[2]).unwrap() < 128 {
            match decoded(s.subrange(3, s.len() as int)) {
                Some(r) => Some(
                    seq![((hex_value(s[1]).unwrap() * 16 + hex_value(s[2]).unwrap()) as u8) as char]
                        + r,
                ),
                None => None,
            }
        } else {
            None
        }
    } else {
        match decoded(s.drop_first()) {
            Some(r) => Some(seq![s[0]] + r),
            None => None,
        }
    }
}

/// A component without `%` and `+` decodes to itself: nothing is lost.
pub proof fn lemma_plain_decodes_verbatim(s: Seq<char>)
    requires
        forall|i: int| 0 <= i < s.len() ==> s[i] != '%' && s[i] != '+',
    ensures
        decoded(s) == Some(s),
    decreases s.len(),
{
    if s.len() > 0 {
        lemma_plain_decodes_verbatim(s.drop_first());
        assert(seq![s[0]] + s.drop_first() =~= s);
    }
}

fn hex_digit(c: char) -> (r: Option<u8>)
    ensures
        r is Some <==> hex_value(c) is Some,
        r is Some ==> r.unwrap() as nat == hex_value(c).unwrap(),
{
    if '0' <= c && c <= '9' {
        Some((c as u32 - '0' as u32) as u8)
    } else if 'a' <= c && c <= 'f' {
        Some((c as u32 - 'a' as u32 + 10) as u8)
    } else if 'A' <= c && c <= 'F' {
        Some((c as u32 - 'A' as u32 + 10) as u8)
    } else {
        None
    }
}

/// Decodes `s[from..to]` as a form-encoded query component.
pub fn decode_component(s: &str, from: usize, to: usize) -> (r: Option<String>)
    requires
        from <= to <= s@.len(),
    ensures
        r matches Some(v) ==> decoded(s@.subrange(from as int, to as int)) == Some(v@),
        r is None ==> decoded(s@.subrange(from as int, to as int)) is None,
{
    let mut out = String::new();
    let mut i: usize = from;
    while i < to
        invariant
            from <= i <= to <= s@.len(),
            decoded(s@.subrange(from as int, to as int)) == match decoded(
                s@.subrange(i as int, to as int),
            ) {
                Some(rest) => Some(out@ + rest),
                None => None::<Seq<char>>,
            },
        decreases to - i,
    {
        let ghost tail = s@.subrange(i as int, to as int);
        let ghost out0 = out@;
        let c = s.get_char(i);
        if c == '+' {
            assert(tail.drop_first() =~= s@.subrange(i + 1, to as int));
            push_char(&mut out, ' ');
            i = i + 1;
        } else if c == '%' {
            if to - i < 3 {
                return None;
            }
            let hi = hex_digit(s.get_char(i + 1));
            let lo = hex_digit(s.get_char(i + 2));
            match (hi, lo) {
                (Some(h), Some(l)) => {
                    if h as u32 * 16 + l as u32 >= 128 {
                        return None;
                    }
                    assert(tail.subrange(3, tail.len() as int) =~= s@.subrange(i + 3, to as int));
                    push_char(&mut out, ((h * 16 + l) as u8) as char);
                    i = i + 3;
                },
                _ => {
                    return None;
                },
            }
        } else {
            assert(tail.drop_first() =~= s@.subrange(i + 1, to as int));
            push_char(&mut out, c);
            i = i + 1;
        }
        proof {
            if let Some(rest) = decoded(s@.subrange(i as int, to as int)) {
                let x = out@.last();
                assert(out0 + (seq![x] + rest) =~= out@ + rest);
            }
        }
    }
    assert(s@.subrange(to as int, to as int) =~= Seq::<char>::empty());
    assert(out@ + Seq::<char>::empty() =~= out@);
    Some(out)
}

/// First position at or after `i` that holds `c`, or the length if none.
pub open spec fn next_index(q: Seq<char>, c: char, i: int) -> int
    decreases q.len() - i,
{
    if i >= q.len() {
        q.len() as int
    } else if q[i] == c {
        i
    } else {
        next_index(q, c, i + 1)
    }
}

proof fn lemma_next_index_bounds(q: Seq<char>, c: char, i: int)
    requires
        0 <= i <= q.len(),
    ensures
        i <= next_index(q, c, i) <= q.len(),
    decreases q.len() - i,
{
    if i < q.len() && q[i] != c {
        lemma_next_index_bounds(q, c, i + 1);
    }
}

/// The raw value of the first `&`-separated pair, from position `i` on,
/// whose key is exactly `name`. A pair without `=` has an empty value.
pub open spec fn raw_param_from(q: Seq<char>, name: Seq<char>, i: int) -> Option<Seq<char>>
    decreases q.len() - i,
{
    if i < 0 || i > q.len() {
        None
    } else {
        let end = next_index(q, '&', i);
        let eq = next_index(q.subrange(0, end), '=', i);
        if q.subrange(i, eq) == name {
            Some(if eq < end { q.subrange(eq + 1, end) } else { Seq::empty() })
        } else if end >= q.len() || end < i {
            None
        } else {
            raw_param_from(q, name, end + 1)
        }
    }
}

/// The decoded value of parameter `name` in the query `q`: `None` when no
/// pair has that key, `Some(None)` when its value is malformed.
pub open spec fn param_value(q: Seq<char>, name: Seq<char>) -> Option<Option<Seq<char>>> {
    match raw_param_from(q, name, 0) {
        Some(raw) => Some(decoded(raw)),
        None => None,
    }
}

fn find_char(q: &str, c: char, from: usize, to: usize) -> (r: usize)
    requires
        from <= to <= q@.len(),
    ensures
        r == next_index(q@.subrange(0, to as int), c, from as int),
{
    let ghost p = q@.subrange(0, to as int);
    let mut i: usize = from;
    while i < to && q.get_char(i) != c
        invariant
            from <= i <= to <= q@.len(),
            p == q@.subrange(0, to as int),
            next_index(p, c, from as int) == next_index(p, c, i as int),
        decreases to - i,
    {
        assert(p[i as int] == q@[i as int]);
        i = i + 1;
    }
    i
}

fn same_chars(q: &str, from: usize, to: usize, name: &str) -> (r: bool)
    requires
        from <= to <= q@.len(),
    ensures
        r == (q@.subrange(from as int, to as int) == name@),
{
    let n = name.unicode_len();
    if to - from != n {
        return false;
    }
    let mut k: usize = 0;
    while k < n
        invariant
            n == name@.len(),
            to - from == n,
            from <= to <= q@.len(),
            k <= n,
            forall|j: int| 0 <= j < k ==> q@[from + j] == name@[j],
        decreases n - k,
    {
        if q.get_char(from + k) != name.get_char(k) {
            assert(q@.subrange(from as int, to as int)[k as int] != name@[k as int]);
            return false;
        }
        k = k + 1;
    }
    assert(q@.subrange(from as int, to as int) =~= name@);
    true
}

/// Looks up parameter `name` in the query string `q` (the part of a URL
/// after `?`) and decodes its value.
pub fn query_param(q: &str, name: &str) -> (r: Option<Option<String>>)
    ensures
        r is None <==> param_value(q@, name@) is None,
        r matches Some(v) ==> (v is None <==> param_value(q@, name@).unwrap() is None),
        r matches Some(Some(v)) ==> param_value(q@, name@) == Some(Some(v@)),
{
    let len = q.unicode_len();
    let mut i: usize = 0;
    while i <= len
        invariant
            len == q@.len(),
            i <= len + 1,
            raw_param_from(q@, name@, 0) == raw_param_from(q@, name@, i as int),
        decreases len + 1 - i,
    {
        assert(q@.subrange(0, len as int) =~= q@);
        let end = find_char(q, '&', i, len);
        proof {
            lemma_next_index_bounds(q@, '&', i as int);
        }
        let eq = find_char(q, '=', i, end);
        proof {
            lemma_next_index_bounds(q@.subrange(0, end as int), '=', i as int);
        }
        if same_chars(q, i, eq, name) {
            if eq < end {
                return Some(decode_component(q, eq + 1, end));
            } else {
                assert(q@.subrange(end as int, end as int) =~= Seq::<char>::empty());
                return Some(decode_component(q, end, end));
            }
        }
        if end >= len {
            return None;
        }
        i = end + 1;
    }
    None
}

} // verus!

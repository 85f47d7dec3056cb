use vstd::prelude::*;

use crate::chars::{chars_of, push_char, string_of};
use crate::shell_err::message;

verus! {

/// The position of the first `=` in `s`, if any.
pub open spec fn first_eq(s: Seq<char>, i: int) -> Option<int>
    decreases s.len() - i,
{
    if !(0 <= i < s.len()) {
        None
    } else if s[i] == '=' {
        Some(i)
    } else {
        first_eq(s, i + 1)
    }
}

/// The error text for an argument without `=`.
pub open spec fn key_val_error(s: Seq<char>) -> Seq<char> {
    "invalid KEY=value: no `=` found in `"@ + s + seq!['`']
}

/// Splits `KEY=value` at its first `=`.
pub fn parse_key_val(s: &str) -> (r: Result<(String, String), String>)
    ensures
        match first_eq(s@, 0) {
            Some(p) => r matches Ok((k, v)) && k@ == s@.subrange(0, p) && v@ == s@.subrange(
                p + 1,
                s@.len() as int,
            ),
            None => r matches Err(m) && m@ == key_val_error(s@),
        },
{
    let v = chars_of(s);
    let n = v.len();
    let mut i: usize = 0;
    while i < n
        invariant
            i <= n == v@.len(),
            v@ == s@,
            first_eq(s@, i as int) == first_eq(s@, 0),
        decreases n - i,
    {
        if v[i] == '=' {
            return Ok((string_of(&v, 0, i), string_of(&v, i + 1, n)));
        }
        i = i + 1;
    }
    let mut m = message("invalid KEY=value: no `=` found in `");
    let ghost head = m@;
    let mut j: usize = 0;
    while j < n
        invariant
            j <= n == v@.len(),
            v@ == s@,
            m@ == head + v@.subrange(0, j as int),
        decreases n - j,
    {
        push_char(&mut m, v[j]);
        j = j + 1;
        assert(m@ =~= head + v@.subrange(0, j as int));
    }
    push_char(&mut m, '`');
    assert(v@.subrange(0, n as int) =~= v@);
    assert(m@ =~= key_val_error(s@));
    Err(m)
}

} // verus!

use vstd::prelude::*;

verus! {

/// Relies on std's `Iterator::collect` for `String`: collecting chars
/// yields the string of exactly those chars, in order.
#[verifier::external_body]
pub(crate) fn chars_to_string(v: &Vec<char>) -> (r: String)
    ensures
        r@ == v@,
{
    v.iter().collect()
}

/// Relies on std's `str::chars`: iterating a string slice yields its
/// chars, in order.
#[verifier::external_body]
pub(crate) fn str_to_chars(s: &str) -> (r: Vec<char>)
    ensures
        r@ == s@,
{
    s.chars().collect()
}

/// Appends every char of `s` to `out`.
pub(crate) fn push_chars(out: &mut Vec<char>, s: &str)
    ensures
        final(out)@ == old(out)@ + s@,
{
    let cs = str_to_chars(s);
    let mut i: usize = 0;
    while i < cs.len()
        invariant
            i <= cs.len(),
            cs@ == s@,
            out@ == old(out)@ + s@.take(i as int),
        decreases cs.len() - i,
    {
        out.push(cs[i]);
        i = i + 1;
        assert(s@.take(i as int) == s@.take(i as int - 1).push(s@[i as int - 1]));
    }
    assert(s@.take(cs.len() as int) == s@);
}

} // verus!

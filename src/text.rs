use vstd::prelude::*;

verus! {

/// Relies on `String::push`: appends one character at the end.
#[verifier::external_body]
pub(crate) fn push_char(s: &mut String, c: char)
    ensures
        final(s)@ == old(s)@.push(c),
{
    s.push(c)
}

/// The characters of `s` from index `a` up to, not including, `b`, as a new string.
pub fn text_of(src: &Vec<char>, a: usize, b: usize) -> (r: String)
    requires
        a <= b <= src@.len(),
    ensures
        r@ == src@.subrange(a as int, b as int),
{
    let mut out = String::new();
    let mut i: usize = a;
    while i < b
        invariant
            a <= i <= b <= src@.len(),
            out@ == src@.subrange(a as int, i as int),
        decreases b - i,
    {
        push_char(&mut out, src[i]);
        i = i + 1;
        proof {
            assert(out@ =~= src@.subrange(a as int, i as int));
        }
    }
    out
}

/// The characters of a string, one per element.
pub fn chars_of(s: &String) -> (r: Vec<char>)
    ensures
        r@ == s@,
{
    let mut out: Vec<char> = Vec::new();
    for c in it: s.as_str().chars()
        invariant
            out@ == it.seq().subrange(0, it.index() as int),
    {
        out.push(c);
    }
    proof {
        assert(out@ =~= s@);
    }
    out
}

} // verus!

//! Initial-packet directives (`contract:value~option`) and contract names.
use vstd::prelude::*;
use crate::error::LoadError;

verus! {

/// Position of the first occurrence of `c` in `s`, if any.
#[verifier::opaque]
pub open spec fn find_char(s: Seq<char>, c: char) -> Option<int> {
    if exists|i: int| 0 <= i < s.len() && s[i] == c {
        Some(choose|i: int| 0 <= i < s.len() && s[i] == c && forall|j: int| 0 <= j < i ==> s[j] != c)
    } else {
        None
    }
}

/// ASCII upper-case of a character; anything else is kept.
pub open spec fn ascii_upper(c: char) -> char {
    if 'a' <= c && c <= 'z' {
        (((c as u8) - 32) as u8) as char
    } else {
        c
    }
}

proof fn lemma_find_first(s: Seq<char>, c: char, p: int)
    requires
        0 <= p < s.len(),
        s[p] == c,
        forall|j: int| 0 <= j < p ==> s[j] != c,
    ensures
        find_char(s, c) == Some(p),
{
    reveal(find_char);
    let q = choose|i: int| 0 <= i < s.len() && s[i] == c && forall|j: int| 0 <= j < i ==> s[j] != c;
    assert(0 <= q < s.len() && s[q] == c && forall|j: int| 0 <= j < q ==> s[j] != c);
    if q < p {
        assert(s[q] != c);
    } else if p < q {
        assert(s[p] != c);
    }
}

fn upper_char(c: char) -> (r: char)
    ensures
        r == ascii_upper(c),
{
    if 'a' <= c && c <= 'z' {
        ((c as u8) - 32) as char
    } else {
        c
    }
}

} // verus!

verus! {

/// The characters of `s`, in order.
pub fn chars_of(s: &str) -> (r: Vec<char>)
    ensures
        r@ == s@,
{
    broadcast use vstd::string::axiom_spec_iter;

    let mut out: Vec<char> = Vec::new();
    for c in it: s.chars()
        invariant
            it.seq() == s@,
            out@ == it.seq().take(it.index() as int),
    {
        out.push(c);
    }
    out
}

/// Relies on `String: FromIterator<char>`: the characters are kept, in order.
#[verifier::external_body]
pub(crate) fn string_of(v: &Vec<char>) -> (r: String)
    ensures
        r@ == v@,
{
    v.iter().collect()
}

} // verus!

verus! {

/// A directive split at its first `:` and at the first `~` after it:
/// contract name, value, and the optional post-processing action.
pub open spec fn split_spec(s: Seq<char>) -> Option<(Seq<char>, Seq<char>, Option<Seq<char>>)> {
    match find_char(s, ':') {
        None => None,
        Some(p) => {
            let rest = s.skip(p + 1);
            match find_char(rest, '~') {
                None => Some((s.take(p), rest, None)),
                Some(q) => Some((s.take(p), rest.take(q), Some(rest.skip(q + 1)))),
            }
        },
    }
}

/// A segment with its first character upper-cased (ASCII letters only).
pub open spec fn capitalize_spec(w: Seq<char>) -> Seq<char> {
    if w.len() == 0 {
        w
    } else {
        w.update(0, ascii_upper(w[0]))
    }
}

/// The segments of `s` between underscores, each capitalized, joined with no separator.
pub open spec fn camel_spec(s: Seq<char>) -> Seq<char>
    decreases s.len(),
{
    match find_char(s, '_') {
        None => capitalize_spec(s),
        Some(p) => if 0 <= p < s.len() {
            capitalize_spec(s.take(p)) + camel_spec(s.skip(p + 1))
        } else {
            Seq::empty()
        },
    }
}

proof fn lemma_find_none(s: Seq<char>, c: char)
    requires
        forall|j: int| 0 <= j < s.len() ==> s[j] != c,
    ensures
        find_char(s, c) == None::<int>,
{
    reveal(find_char);
}

/// First position of `c` in `v` at or after `from`, or `v.len()` if none.
fn find_from(v: &Vec<char>, from: usize, c: char) -> (r: usize)
    requires
        from <= v.len(),
    ensures
        from <= r <= v.len(),
        forall|j: int| from <= j < r ==> v@[j] != c,
        r < v.len() ==> v@[r as int] == c,
{
    let mut i = from;
    while i < v.len()
        invariant
            from <= i <= v.len(),
            forall|j: int| from <= j < i ==> v@[j] != c,
        decreases v.len() - i,
    {
        if v[i] == c {
            return i;
        }
        i = i + 1;
    }
    i
}

/// The characters `v[lo..hi]` as a string.
fn slice_string(v: &Vec<char>, lo: usize, hi: usize) -> (r: String)
    requires
        lo <= hi <= v.len(),
    ensures
        r@ == v@.subrange(lo as int, hi as int),
{
    let mut out: Vec<char> = Vec::new();
    let mut i = lo;
    while i < hi
        invariant
            lo <= i <= hi <= v.len(),
            out@ == v@.subrange(lo as int, i as int),
        decreases hi - i,
    {
        out.push(v[i]);
        i = i + 1;
        assert(out@ == v@.subrange(lo as int, i as int));
    }
    string_of(&out)
}

/// Splits `contract:value~option` into its three parts; the `~option` part is optional.
pub fn split_input(s: &str) -> (r: Result<(String, String, Option<String>), LoadError>)
    ensures
        split_spec(s@) is None <==> r is Err,
        r is Err ==> r->Err_0 is MalformedIip,
        r matches Ok((a, b, o)) ==> split_spec(s@) == Some((a@, b@, match o {
            Some(x) => Some(x@),
            None => None::<Seq<char>>,
        })),
{
    let v = chars_of(s);
    let p = find_from(&v, 0, ':');
    if p == v.len() {
        proof {
            lemma_find_none(s@, ':');
        }
        return Err(LoadError::MalformedIip(string_of(&chars_of("bad definition of iip"))));
    }
    proof {
        lemma_find_first(s@, ':', p as int);
    }
    let ghost rest = s@.skip(p + 1);
    let contract = slice_string(&v, 0, p);
    let q = find_from(&v, p + 1, '~');
    if q == v.len() {
        let value = slice_string(&v, p + 1, v.len());
        proof {
            lemma_find_none(rest, '~');
            assert(value@ == rest);
            assert(contract@ == s@.take(p as int));
        }
        Ok((contract, value, None))
    } else {
        let value = slice_string(&v, p + 1, q);
        let option = slice_string(&v, q + 1, v.len());
        proof {
            lemma_find_first(rest, '~', q - p - 1);
            assert(value@ == rest.take(q - p - 1));
            assert(option@ == rest.skip(q - p));
            assert(contract@ == s@.take(p as int));
        }
        Ok((contract, value, Some(option)))
    }
}

/// `s` with its first character upper-cased when it is an ASCII letter.
pub fn capitalize_first_letter(s: &str) -> (r: String)
    ensures
        r@ == capitalize_spec(s@),
{
    let mut v = chars_of(s);
    if v.len() > 0 {
        let c = upper_char(v[0]);
        v.set(0, c);
    }
    string_of(&v)
}

/// The normalized identifier of a contract name: `generic_text` gives `GenericText`.
pub fn to_camel_case(s: &str) -> (r: String)
    ensures
        r@ == camel_spec(s@),
{
    let v = chars_of(s);
    let mut out: Vec<char> = Vec::new();
    let mut start: usize = 0;
    let mut done = false;
    assert(v@.skip(0) == v@);
    while !done
        invariant
            start <= v.len(),
            !done ==> out@ + camel_spec(v@.skip(start as int)) == camel_spec(s@),
            done ==> out@ == camel_spec(s@),
            v@ == s@,
        decreases v.len() - start + (if done { 0int } else { 1int }),
    {
        let end = find_from(&v, start, '_');
        let ghost cur = v@.skip(start as int);
        let ghost old_out = out@;
        let mut i = start;
        while i < end
            invariant
                start <= i <= end <= v.len(),
                out@ == old_out + capitalize_spec(v@.subrange(start as int, i as int)),
            decreases end - i,
        {
            let c = if i == start { upper_char(v[i]) } else { v[i] };
            out.push(c);
            i = i + 1;
            assert(out@ == old_out + capitalize_spec(v@.subrange(start as int, i as int)));
        }
        proof {
            if end == v.len() {
                lemma_find_none(cur, '_');
                assert(cur == v@.subrange(start as int, end as int));
            } else {
                lemma_find_first(cur, '_', end - start);
                assert(cur.take(end - start) == v@.subrange(start as int, end as int));
                assert(cur.skip(end - start + 1) == v@.skip(end + 1));
                assert(camel_spec(cur) == capitalize_spec(v@.subrange(start as int, end as int)) + camel_spec(v@.skip(end + 1)));
                assert(out@ + camel_spec(v@.skip(end + 1)) == old_out + camel_spec(cur));
            }
        }
        if end == v.len() {
            done = true;
        } else {
            start = end + 1;
        }
    }
    string_of(&out)
}

} // verus!

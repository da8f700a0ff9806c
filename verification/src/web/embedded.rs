//! Content types of the embedded frontend assets.
use vstd::prelude::*;

use crate::script::strings::chars_of;

verus! {

/// The part of `p` after its last `.`, or all of `p` when it has none.
pub open spec fn last_segment(p: Seq<char>) -> Seq<char>
    decreases p.len(),
{
    if p.len() == 0 {
        p
    } else if p.last() == '.' {
        Seq::empty()
    } else {
        last_segment(p.drop_last()).push(p.last())
    }
}

/// The content type served for an extension.
pub open spec fn type_for_extension(ext: Seq<char>) -> Seq<char> {
    if ext == "html"@ {
        "text/html; charset=utf-8"@
    } else if ext == "js"@ {
        "application/javascript"@
    } else if ext == "css"@ {
        "text/css"@
    } else if ext == "wasm"@ {
        "application/wasm"@
    } else if ext == "svg"@ {
        "image/svg+xml"@
    } else if ext == "png"@ {
        "image/png"@
    } else if ext == "ico"@ {
        "image/x-icon"@
    } else if ext == "json"@ {
        "application/json"@
    } else {
        "application/octet-stream"@
    }
}

/// Whether `chars[start..]` spells `w`.
fn tail_is(chars: &Vec<char>, start: usize, w: &str) -> (b: bool)
    requires
        start <= chars.len(),
    ensures
        b == (chars@.subrange(start as int, chars.len() as int) == w@),
{
    let c = chars_of(w);
    if chars.len() - start != c.len() {
        return false;
    }
    let mut k: usize = 0;
    while k < c.len()
        invariant
            c@ == w@,
            start <= chars.len(),
            chars.len() - start == c.len(),
            k <= c.len(),
            forall|m: int| 0 <= m < k ==> chars@[start + m] == c@[m],
        decreases c.len() - k,
    {
        if chars[start + k] != c[k] {
            return false;
        }
        k = k + 1;
    }
    assert(chars@.subrange(start as int, chars.len() as int) =~= c@);
    true
}

/// The content type for a path, by the text after its last dot.
pub fn content_type(path: &str) -> (t: &'static str)
    ensures
        t@ == type_for_extension(last_segment(path@)),
{
    let chars = chars_of(path);
    let ghost s = chars@;
    let mut start: usize = chars.len();
    assert(s.take(s.len() as int) =~= s);
    assert(s.subrange(s.len() as int, s.len() as int) =~= Seq::<char>::empty());
    assert(last_segment(s) =~= last_segment(s.take(start as int)) + s.subrange(start as int, s.len() as int));
    while start > 0 && chars[start - 1] != '.'
        invariant
            start <= chars.len(),
            s == chars@,
            last_segment(s) == last_segment(s.take(start as int)) + s.subrange(start as int, s.len() as int),
        decreases start,
    {
        proof {
            let t = s.take(start as int);
            assert(t.drop_last() =~= s.take(start as int - 1));
            assert(s.subrange(start as int - 1, s.len() as int) =~= seq![t.last()] + s.subrange(
                start as int,
                s.len() as int,
            ));
            assert(last_segment(t) == last_segment(t.drop_last()).push(t.last()));
            assert(last_segment(t.drop_last()).push(t.last()) + s.subrange(start as int, s.len() as int)
                =~= last_segment(t.drop_last()) + (seq![t.last()] + s.subrange(start as int, s.len() as int)));
        }
        start = start - 1;
    }
    proof {
        if start > 0 {
            assert(last_segment(s.take(start as int)) =~= Seq::<char>::empty());
        } else {
            assert(s.take(0) =~= Seq::<char>::empty());
        }
        assert(last_segment(s) =~= s.subrange(start as int, s.len() as int));
    }
    if tail_is(&chars, start, "html") {
        "text/html; charset=utf-8"
    } else if tail_is(&chars, start, "js") {
        "application/javascript"
    } else if tail_is(&chars, start, "css") {
        "text/css"
    } else if tail_is(&chars, start, "wasm") {
        "application/wasm"
    } else if tail_is(&chars, start, "svg") {
        "image/svg+xml"
    } else if tail_is(&chars, start, "png") {
        "image/png"
    } else if tail_is(&chars, start, "ico") {
        "image/x-icon"
    } else if tail_is(&chars, start, "json") {
        "application/json"
    } else {
        "application/octet-stream"
    }
}

} // verus!

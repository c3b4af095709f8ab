//! Paths as text: splitting, joining and comparing them as `std::path`
//! does on Unix.

use crate::ids::texts;
use crate::text::chars_of;
use vstd::prelude::*;

verus! {

/// `s` split at every `sep`, as `str::split` does: `n` separators give
/// `n + 1` pieces.
pub open spec fn pieces(s: Seq<char>, sep: char) -> Seq<Seq<char>>
    decreases s.len(),
{
    if s.len() == 0 {
        seq![Seq::empty()]
    } else {
        let p = pieces(s.drop_last(), sep);
        if s.last() == sep {
            p.push(Seq::empty())
        } else {
            p.update(p.len() - 1, p.last().push(s.last()))
        }
    }
}

pub proof fn lemma_pieces_nonempty(s: Seq<char>, sep: char)
    ensures
        pieces(s, sep).len() >= 1,
    decreases s.len(),
{
    if s.len() > 0 {
        lemma_pieces_nonempty(s.drop_last(), sep);
    }
}

/// Splits `s` at every `sep`; see [`pieces`].
pub fn split_text(s: &str, sep: char) -> (r: Vec<String>)
    ensures
        texts(r@) == pieces(s@, sep),
{
    let v = chars_of(s);
    let n = v.len();
    let mut out: Vec<String> = Vec::new();
    let mut start: usize = 0;
    let mut i: usize = 0;
    proof {
        assert(s@.subrange(0, 0) =~= Seq::<char>::empty());
        assert(texts(out@).push(s@.subrange(0, 0)) =~= pieces(s@.subrange(0, 0), sep));
    }
    while i < n
        invariant
            v@ == s@,
            n == s@.len(),
            start <= i <= n,
            texts(out@).push(s@.subrange(start as int, i as int)) == pieces(
                s@.subrange(0, i as int),
                sep,
            ),
        decreases n - i,
    {
        proof {
            let t = s@.subrange(0, i as int + 1);
            assert(t.drop_last() =~= s@.subrange(0, i as int));
            assert(t.last() == s@[i as int]);
            lemma_pieces_nonempty(s@.subrange(0, i as int), sep);
        }
        if v[i] == sep {
            let ghost before = out@;
            out.push(s.substring_char(start, i).to_owned());
            proof {
                assert(texts(out@) =~= texts(before).push(s@.subrange(start as int, i as int)));
                assert(s@.subrange(i as int + 1, i as int + 1) =~= Seq::<char>::empty());
            }
            start = i + 1;
        } else {
            proof {
                assert(s@.subrange(start as int, i as int + 1) =~= s@.subrange(
                    start as int,
                    i as int,
                ).push(s@[i as int]));
                let p = pieces(s@.subrange(0, i as int), sep);
                assert(p.update(p.len() - 1, p.last().push(s@[i as int])) =~= texts(out@).push(
                    s@.subrange(start as int, i as int + 1),
                ));
            }
        }
        i = i + 1;
    }
    let ghost before = out@;
    out.push(s.substring_char(start, n).to_owned());
    proof {
        assert(texts(out@) =~= texts(before).push(s@.subrange(start as int, n as int)));
        assert(s@.subrange(0, n as int) =~= s@);
    }
    out
}

/// `s` begins with `prefix`.
pub open spec fn begins_with(s: Seq<char>, prefix: Seq<char>) -> bool {
    s.len() >= prefix.len() && s.subrange(0, prefix.len() as int) == prefix
}

/// `p` is an absolute path.
pub open spec fn is_absolute(p: Seq<char>) -> bool {
    p.len() > 0 && p[0] == '/'
}

/// `a` joined with the relative path `b`, as `Path::join` does: one `/`
/// between them, none after an empty path.
pub open spec fn joined(a: Seq<char>, b: Seq<char>) -> Seq<char> {
    if a.len() == 0 || a.last() == '/' {
        a + b
    } else {
        a + "/"@ + b
    }
}

/// Joins `a` and the relative path `b`; see [`joined`].
pub fn join_path(a: &str, b: &str) -> (r: String)
    ensures
        r@ == joined(a@, b@),
{
    let mut r: String = a.to_owned();
    let n = a.unicode_len();
    if n == 0 || a.get_char(n - 1) == '/' {
        r.append(b);
    } else {
        r.append("/");
        r.append(b);
    }
    proof {
        assert(r@ =~= joined(a@, b@));
    }
    r
}


/// The pieces that name something: not empty, not `.`.
pub open spec fn named_parts(parts: Seq<Seq<char>>) -> Seq<Seq<char>>
    decreases parts.len(),
{
    if parts.len() == 0 {
        Seq::empty()
    } else {
        let kept = named_parts(parts.drop_last());
        let last = parts.last();
        if last.len() == 0 || last == "."@ {
            kept
        } else {
            kept.push(last)
        }
    }
}

/// The components of a path as `Path::components` gives them: `/` for the
/// root of an absolute path, `.` for a relative path that begins with one,
/// then every piece between slashes that is neither empty nor `.`.
pub open spec fn components(p: Seq<char>) -> Seq<Seq<char>> {
    let parts = pieces(p, '/');
    if is_absolute(p) {
        seq!["/"@] + named_parts(parts)
    } else if parts[0] == "."@ {
        seq!["."@] + named_parts(parts.drop_first())
    } else {
        named_parts(parts)
    }
}

/// `p` is `base` or lies under it, component by component, as
/// `Path::starts_with` decides: `/a/bc` does not start with `/a/b`.
pub open spec fn path_starts_with(p: Seq<char>, base: Seq<char>) -> bool {
    components(base).len() <= components(p).len() && components(p).subrange(
        0,
        components(base).len() as int,
    ) == components(base)
}

fn named_parts_of(parts: &Vec<String>, from: usize) -> (r: Vec<String>)
    requires
        from <= parts@.len(),
    ensures
        texts(r@) == named_parts(texts(parts@).subrange(from as int, parts@.len() as int)),
{
    let mut out: Vec<String> = Vec::new();
    let mut i: usize = from;
    while i < parts.len()
        invariant
            from <= i <= parts@.len(),
            texts(out@) == named_parts(texts(parts@).subrange(from as int, i as int)),
        decreases parts@.len() - i,
    {
        proof {
            let s = texts(parts@).subrange(from as int, i as int + 1);
            assert(s.drop_last() =~= texts(parts@).subrange(from as int, i as int));
            assert(s.last() == parts@[i as int]@);
        }
        let part = parts[i].as_str();
        if part.unicode_len() > 0 && !crate::text::same_text(part, ".") {
            let ghost before = out@;
            out.push(parts[i].clone());
            assert(texts(out@) =~= texts(before).push(part@));
        }
        i = i + 1;
    }
    out
}

/// The components of `p`; see [`components`].
pub fn path_components(p: &str) -> (r: Vec<String>)
    ensures
        texts(r@) == components(p@),
{
    let parts = split_text(p, '/');
    proof {
        lemma_pieces_nonempty(p@, '/');
    }
    let n = p.unicode_len();
    if n > 0 && p.get_char(0) == '/' {
        let rest = named_parts_of(&parts, 0);
        let mut out: Vec<String> = Vec::new();
        out.push("/".to_owned());
        let ghost head = out@;
        let mut r = out;
        let mut i: usize = 0;
        while i < rest.len()
            invariant
                i <= rest@.len(),
                texts(r@) == seq!["/"@] + texts(rest@).subrange(0, i as int),
            decreases rest@.len() - i,
        {
            let ghost before = r@;
            r.push(rest[i].clone());
            proof {
                assert(texts(r@) =~= texts(before).push(rest@[i as int]@));
                assert(texts(rest@).subrange(0, i as int + 1) =~= texts(rest@).subrange(
                    0,
                    i as int,
                ).push(rest@[i as int]@));
                assert(texts(r@) =~= seq!["/"@] + texts(rest@).subrange(0, i as int + 1));
            }
            i = i + 1;
        }
        proof {
            assert(texts(rest@).subrange(0, rest@.len() as int) =~= texts(rest@));
            assert(texts(parts@).subrange(0, parts@.len() as int) =~= texts(parts@));
        }
        r
    } else if crate::text::same_text(parts[0].as_str(), ".") {
        let rest = named_parts_of(&parts, 1);
        let mut r: Vec<String> = Vec::new();
        r.push(".".to_owned());
        let mut i: usize = 0;
        while i < rest.len()
            invariant
                i <= rest@.len(),
                texts(r@) == seq!["."@] + texts(rest@).subrange(0, i as int),
            decreases rest@.len() - i,
        {
            let ghost before = r@;
            r.push(rest[i].clone());
            proof {
                assert(texts(r@) =~= texts(before).push(rest@[i as int]@));
                assert(texts(rest@).subrange(0, i as int + 1) =~= texts(rest@).subrange(
                    0,
                    i as int,
                ).push(rest@[i as int]@));
                assert(texts(r@) =~= seq!["."@] + texts(rest@).subrange(0, i as int + 1));
            }
            i = i + 1;
        }
        proof {
            assert(texts(rest@).subrange(0, rest@.len() as int) =~= texts(rest@));
            assert(texts(parts@).subrange(1, parts@.len() as int) =~= texts(parts@).drop_first());
            assert(texts(parts@)[0] == parts@[0]@);
        }
        r
    } else {
        let r = named_parts_of(&parts, 0);
        proof {
            assert(texts(parts@).subrange(0, parts@.len() as int) =~= texts(parts@));
            assert(texts(parts@)[0] == parts@[0]@);
        }
        r
    }
}

/// Whether `p` is `base` or lies under it; see [`path_starts_with`].
pub fn starts_with_path(p: &str, base: &str) -> (r: bool)
    ensures
        r == path_starts_with(p@, base@),
{
    let a = path_components(p);
    let b = path_components(base);
    if b.len() > a.len() {
        return false;
    }
    let mut i: usize = 0;
    while i < b.len()
        invariant
            b@.len() <= a@.len(),
            texts(a@) == components(p@),
            texts(b@) == components(base@),
            i <= b@.len(),
            forall|j: int| 0 <= j < i ==> a@[j]@ == b@[j]@,
        decreases b@.len() - i,
    {
        if a[i] != b[i] {
            assert(texts(a@).subrange(0, b@.len() as int)[i as int] != texts(b@)[i as int]);
            assert(texts(a@).subrange(0, b@.len() as int) != texts(b@));
            return false;
        }
        i = i + 1;
    }
    assert(texts(a@).subrange(0, b@.len() as int) =~= texts(b@));
    true
}

/// Whether `a` and `b` name the same path, component by component, as
/// `Path`'s `==` decides: `/usr//share` and `/usr/share/` are the same.
pub fn same_path(a: &str, b: &str) -> (r: bool)
    ensures
        r == (components(a@) == components(b@)),
{
    let x = path_components(a);
    let y = path_components(b);
    if x.len() != y.len() {
        assert(texts(x@).len() != texts(y@).len());
        return false;
    }
    let mut i: usize = 0;
    while i < x.len()
        invariant
            x@.len() == y@.len(),
            texts(x@) == components(a@),
            texts(y@) == components(b@),
            i <= x@.len(),
            forall|j: int| 0 <= j < i ==> x@[j]@ == y@[j]@,
        decreases x@.len() - i,
    {
        if x[i] != y[i] {
            assert(texts(x@)[i as int] != texts(y@)[i as int]);
            return false;
        }
        i = i + 1;
    }
    assert(texts(x@) =~= texts(y@));
    true
}

} // verus!

//! The environment a child process of the desktop's own tools is given.
//!
//! An AppImage runs with variables pointing inside its bundle; a system tool
//! that inherits them loads the wrong libraries or looks in the wrong schema
//! directory. Children get the environment with the bundle taken back out,
//! entry by entry, so that what the user put there survives.

use crate::ids::texts;
use crate::paths::{path_starts_with, pieces, split_text, starts_with_path};
use vstd::prelude::*;

verus! {

/// The entries of a `:`-separated list that do not point into `appdir`.
pub open spec fn outside_entries(entries: Seq<Seq<char>>, appdir: Seq<char>) -> Seq<Seq<char>>
    decreases entries.len(),
{
    if entries.len() == 0 {
        Seq::empty()
    } else {
        let kept = outside_entries(entries.drop_last(), appdir);
        if path_starts_with(entries.last(), appdir) {
            kept
        } else {
            kept.push(entries.last())
        }
    }
}

/// `parts` joined by `sep`.
pub open spec fn joined_by(parts: Seq<Seq<char>>, sep: char) -> Seq<char>
    decreases parts.len(),
{
    if parts.len() == 0 {
        Seq::empty()
    } else if parts.len() == 1 {
        parts[0]
    } else {
        joined_by(parts.drop_last(), sep) + seq![sep] + parts.last()
    }
}

/// What becomes of one variable's value: nothing, if no entry points into
/// the bundle; otherwise the remaining entries in order, or removal when
/// none remain.
pub open spec fn value_change(value: Seq<char>, appdir: Seq<char>) -> Option<Option<Seq<char>>> {
    let entries = pieces(value, ':');
    let kept = outside_entries(entries, appdir);
    if kept.len() == entries.len() {
        None
    } else {
        let rest = joined_by(kept, ':');
        Some(
            if rest.len() > 0 {
                Some(rest)
            } else {
                None
            },
        )
    }
}

/// For each variable that needs changing, its new value or `None` to
/// remove it, in the order the variables came.
pub open spec fn environment_changes(vars: Seq<(Seq<char>, Seq<char>)>, appdir: Seq<char>) -> Seq<
    (Seq<char>, Option<Seq<char>>),
>
    decreases vars.len(),
{
    if vars.len() == 0 {
        Seq::empty()
    } else {
        let rest = environment_changes(vars.drop_last(), appdir);
        match value_change(vars.last().1, appdir) {
            Some(change) => rest.push((vars.last().0, change)),
            None => rest,
        }
    }
}

pub open spec fn var_views(vars: Seq<(String, String)>) -> Seq<(Seq<char>, Seq<char>)> {
    vars.map_values(|v: (String, String)| (v.0@, v.1@))
}

pub open spec fn change_views(changes: Seq<(String, Option<String>)>) -> Seq<
    (Seq<char>, Option<Seq<char>>),
> {
    changes.map_values(|c: (String, Option<String>)| (c.0@, crate::domain::opt_text(c.1)))
}

fn join_by(parts: &Vec<String>, sep: &str) -> (r: String)
    requires
        sep@.len() == 1,
    ensures
        r@ == joined_by(texts(parts@), sep@[0]),
{
    let mut out = String::new();
    let mut i: usize = 0;
    assert(texts(parts@).subrange(0, 0) =~= Seq::<Seq<char>>::empty());
    while i < parts.len()
        invariant
            i <= parts@.len(),
            sep@.len() == 1,
            out@ == joined_by(texts(parts@).subrange(0, i as int), sep@[0]),
        decreases parts@.len() - i,
    {
        let ghost before = out@;
        proof {
            let s = texts(parts@).subrange(0, i as int + 1);
            assert(s.drop_last() =~= texts(parts@).subrange(0, i as int));
            assert(s.last() == parts@[i as int]@);
        }
        if i > 0 {
            out.append(sep);
            out.append(parts[i].as_str());
            proof {
                assert(sep@ =~= seq![sep@[0]]);
                assert(out@ =~= before + seq![sep@[0]] + parts@[i as int]@);
            }
        } else {
            out.append(parts[i].as_str());
            proof {
                assert(out@ =~= parts@[i as int]@);
            }
        }
        i = i + 1;
    }
    assert(texts(parts@).subrange(0, parts@.len() as int) =~= texts(parts@));
    out
}

/// The new value of one variable, if it needs one; see [`value_change`].
pub fn change_for(value: &str, appdir: &str) -> (r: Option<Option<String>>)
    ensures
        match r {
            None => value_change(value@, appdir@) is None,
            Some(None) => value_change(value@, appdir@) == Some(None::<Seq<char>>),
            Some(Some(v)) => value_change(value@, appdir@) == Some(Some(v@)),
        },
{
    let entries = split_text(value, ':');
    let mut kept: Vec<String> = Vec::new();
    let mut i: usize = 0;
    while i < entries.len()
        invariant
            i <= entries@.len(),
            texts(kept@) == outside_entries(texts(entries@).subrange(0, i as int), appdir@),
        decreases entries@.len() - i,
    {
        proof {
            let s = texts(entries@).subrange(0, i as int + 1);
            assert(s.drop_last() =~= texts(entries@).subrange(0, i as int));
            assert(s.last() == entries@[i as int]@);
        }
        if !starts_with_path(entries[i].as_str(), appdir) {
            let ghost before = kept@;
            kept.push(entries[i].clone());
            assert(texts(kept@) =~= texts(before).push(entries@[i as int]@));
        }
        i = i + 1;
    }
    assert(texts(entries@).subrange(0, entries@.len() as int) =~= texts(entries@));
    if kept.len() == entries.len() {
        return None;
    }
    let separator = ":";
    proof {
        reveal_strlit(":");
    }
    let rest = join_by(&kept, separator);
    if rest.unicode_len() > 0 {
        Some(Some(rest))
    } else {
        Some(None)
    }
}

/// What the environment of a child should be, given the parent's and the
/// directory the AppImage is mounted at; see [`environment_changes`]. A
/// variable that never mentioned the bundle is not touched at all.
pub fn without_the_bundle(vars: &Vec<(String, String)>, appdir: &str) -> (r: Vec<
    (String, Option<String>),
>)
    ensures
        change_views(r@) == environment_changes(var_views(vars@), appdir@),
{
    let mut out: Vec<(String, Option<String>)> = Vec::new();
    let mut i: usize = 0;
    assert(var_views(vars@).subrange(0, 0) =~= Seq::<(Seq<char>, Seq<char>)>::empty());
    assert(change_views(out@) =~= Seq::<(Seq<char>, Option<Seq<char>>)>::empty());
    while i < vars.len()
        invariant
            i <= vars@.len(),
            change_views(out@) == environment_changes(
                var_views(vars@).subrange(0, i as int),
                appdir@,
            ),
        decreases vars@.len() - i,
    {
        let (name, value) = &vars[i];
        proof {
            let s = var_views(vars@).subrange(0, i as int + 1);
            assert(s.drop_last() =~= var_views(vars@).subrange(0, i as int));
            assert(s.last() == (name@, value@));
        }
        match change_for(value.as_str(), appdir) {
            Some(change) => {
                let ghost before = out@;
                let ghost cv = crate::domain::opt_text(change);
                out.push((name.clone(), change));
                assert(change_views(out@) =~= change_views(before).push((name@, cv)));
            },
            None => {},
        }
        i = i + 1;
    }
    assert(var_views(vars@).subrange(0, vars@.len() as int) =~= var_views(vars@));
    out
}

} // verus!

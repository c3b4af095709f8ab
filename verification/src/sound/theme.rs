//! Sound themes: the names that are safe to use, the `Inherits` chain, and
//! the order in which a theme's files are looked for on disk.
//!
//! Paths are text here. Reading `index.theme` files, asking `gsettings`
//! for the theme and asking the disk whether a file exists are the
//! application's, handed in as closures.

use crate::ids::{all_different, texts};
use crate::paths::{
    begins_with, components, is_absolute, join_path, joined, pieces, same_path, split_text,
};
use crate::text::{chars_of, same_text, trim, trimmed};
use vstd::prelude::*;

verus! {

/// An `Inherits` chain longer than this is a loop or a mistake.
pub const MAX_THEMES: usize = 8;

/// How many file extensions a sound may have: `.oga`, `.ogg`, `.wav`.
pub const EXTENSION_COUNT: usize = 3;

// ---------------------------------------------------------------------------
// Theme names.

/// Two dots in a row somewhere in `s`.
pub open spec fn has_dot_dot(s: Seq<char>) -> bool {
    exists|i: int| 0 <= i < s.len() - 1 && s[i] == '.' && #[trigger] s[i + 1] == '.'
}

/// A theme name that can be used as one directory name and nothing else:
/// not empty, no `/`, no `..`.
pub open spec fn is_safe_name(s: Seq<char>) -> bool {
    s.len() > 0 && !s.contains('/') && !has_dot_dot(s)
}

fn is_safe_text(name: &str) -> (r: bool)
    ensures
        r == is_safe_name(name@),
{
    let v = chars_of(name);
    let n = v.len();
    if n == 0 {
        return false;
    }
    let mut i: usize = 0;
    while i < n
        invariant
            v@ == name@,
            n == name@.len(),
            i <= n,
            forall|j: int| 0 <= j < i ==> name@[j] != '/',
            forall|j: int|
                0 <= j < i && j + 1 < n ==> !(name@[j] == '.' && #[trigger] name@[j + 1] == '.'),
        decreases n - i,
    {
        if v[i] == '/' {
            return false;
        }
        if i + 1 < n && v[i] == '.' && v[i + 1] == '.' {
            return false;
        }
        i = i + 1;
    }
    proof {
        if name@.contains('/') {
            let w = choose|w: int| 0 <= w < name@.len() && name@[w] == '/';
            assert(name@[w] == '/');
        }
        if has_dot_dot(name@) {
            let w = choose|w: int|
                0 <= w < name@.len() - 1 && name@[w] == '.' && #[trigger] name@[w + 1] == '.';
            assert(!(name@[w] == '.' && name@[w + 1] == '.'));
        }
    }
    true
}

/// The name, if it is safe to join onto a path; see [`is_safe_name`]. The
/// name comes from a desktop setting or a theme's index file, which
/// anything running as the user can write.
pub fn safe_theme_name(name: &str) -> (r: Option<&str>)
    ensures
        r is Some == is_safe_name(name@),
        r matches Some(s) ==> s@ == name@,
{
    if is_safe_text(name) {
        Some(name)
    } else {
        None
    }
}

/// `t` without one pair of matching quotes around it, single or double.
pub open spec fn unquoted(t: Seq<char>) -> Seq<char> {
    if t.len() >= 2 && t[0] == '\'' && t.last() == '\'' {
        t.subrange(1, t.len() - 1)
    } else if t.len() >= 2 && t[0] == '"' && t.last() == '"' {
        t.subrange(1, t.len() - 1)
    } else {
        t
    }
}

/// The theme name in what `gsettings get` printed: a GVariant string, in
/// quotes, on a line of its own.
pub open spec fn printed_theme_name(printed: Seq<char>) -> Option<Seq<char>> {
    let bare = unquoted(trimmed(printed));
    if is_safe_name(bare) {
        Some(bare)
    } else {
        None
    }
}

/// Reads the theme name out of `gsettings` output; see
/// [`printed_theme_name`].
pub fn parse_theme_name(printed: &str) -> (r: Option<String>)
    ensures
        match r {
            Some(name) => printed_theme_name(printed@) == Some(name@),
            None => printed_theme_name(printed@) is None,
        },
{
    let t = trim(printed);
    let n = t.unicode_len();
    let bare: &str = if n >= 2 && ((t.get_char(0) == '\'' && t.get_char(n - 1) == '\'') || (
    t.get_char(0) == '"' && t.get_char(n - 1) == '"')) {
        t.substring_char(1, n - 1)
    } else {
        t
    };
    assert(bare@ == unquoted(trimmed(printed@)));
    match safe_theme_name(bare) {
        Some(name) => Some(name.to_owned()),
        None => None,
    }
}

/// The arguments that ask `gsettings` for the desktop's sound theme.
pub fn theme_name_args() -> (r: Vec<&'static str>)
    ensures
        r@.len() == 3,
        r@[0]@ == "get"@,
        r@[1]@ == "org.gnome.desktop.sound"@,
        r@[2]@ == "theme-name"@,
{
    let mut r: Vec<&'static str> = Vec::new();
    r.push("get");
    r.push("org.gnome.desktop.sound");
    r.push("theme-name");
    r
}

/// The desktop's sound theme out of `gsettings get`'s answer: none when the
/// tool failed or the name is not safe to use.
pub fn theme_name_from(success: bool, stdout: &str) -> (r: Option<String>)
    ensures
        match r {
            Some(name) => success && printed_theme_name(stdout@) == Some(name@),
            None => !success || printed_theme_name(stdout@) is None,
        },
{
    if success {
        parse_theme_name(stdout)
    } else {
        None
    }
}

// ---------------------------------------------------------------------------
// `Inherits`.

/// The safe names among `parts`, each trimmed.
pub open spec fn safe_names(parts: Seq<Seq<char>>) -> Seq<Seq<char>>
    decreases parts.len(),
{
    if parts.len() == 0 {
        Seq::empty()
    } else {
        let kept = safe_names(parts.drop_last());
        let name = trimmed(parts.last());
        if is_safe_name(name) {
            kept.push(name)
        } else {
            kept
        }
    }
}

/// The themes one line of an `index.theme` names: after `Inherits`, white
/// space and `=`, a comma-separated list.
pub open spec fn names_in_line(line: Seq<char>) -> Seq<Seq<char>> {
    let t = trimmed(line);
    if begins_with(t, "Inherits"@) {
        let rest = trimmed(t.subrange(8, t.len() as int));
        if rest.len() > 0 && rest[0] == '=' {
            safe_names(pieces(rest.subrange(1, rest.len() as int), ','))
        } else {
            Seq::empty()
        }
    } else {
        Seq::empty()
    }
}

pub open spec fn names_in_lines(lines: Seq<Seq<char>>) -> Seq<Seq<char>>
    decreases lines.len(),
{
    if lines.len() == 0 {
        Seq::empty()
    } else {
        names_in_lines(lines.drop_last()) + names_in_line(lines.last())
    }
}

/// The themes an `index.theme` says it inherits from, in order.
pub open spec fn inherited_names(index: Seq<char>) -> Seq<Seq<char>> {
    names_in_lines(pieces(index, '\n'))
}

proof fn lemma_safe_names_safe(parts: Seq<Seq<char>>)
    ensures
        forall|i: int|
            0 <= i < safe_names(parts).len() ==> is_safe_name(#[trigger] safe_names(parts)[i]),
    decreases parts.len(),
{
    if parts.len() > 0 {
        lemma_safe_names_safe(parts.drop_last());
        let kept = safe_names(parts.drop_last());
        let name = trimmed(parts.last());
        if is_safe_name(name) {
            assert(kept.push(name)[kept.len() as int] == name);
        }
    }
}

proof fn lemma_names_in_lines_safe(lines: Seq<Seq<char>>)
    ensures
        forall|i: int|
            0 <= i < names_in_lines(lines).len() ==> is_safe_name(
                #[trigger] names_in_lines(lines)[i],
            ),
    decreases lines.len(),
{
    if lines.len() > 0 {
        lemma_names_in_lines_safe(lines.drop_last());
        let t = trimmed(lines.last());
        if begins_with(t, "Inherits"@) {
            let rest = trimmed(t.subrange(8, t.len() as int));
            if rest.len() > 0 && rest[0] == '=' {
                lemma_safe_names_safe(pieces(rest.subrange(1, rest.len() as int), ','));
            }
        }
        let a = names_in_lines(lines.drop_last());
        let b = names_in_line(lines.last());
        assert forall|i: int| 0 <= i < (a + b).len() implies is_safe_name(#[trigger] (a + b)[i]) by {
            if i >= a.len() {
                assert((a + b)[i] == b[i - a.len()]);
            }
        }
    }
}

fn names_of_line(line: &str) -> (r: Vec<String>)
    ensures
        texts(r@) == names_in_line(line@),
{
    let t = trim(line);
    let n = t.unicode_len();
    proof {
        reveal_strlit("Inherits");
    }
    if n < 8 || !same_text(t.substring_char(0, 8), "Inherits") {
        return Vec::new();
    }
    let rest = trim(t.substring_char(8, n));
    let m = rest.unicode_len();
    if m == 0 || rest.get_char(0) != '=' {
        return Vec::new();
    }
    let parts = split_text(rest.substring_char(1, m), ',');
    let mut out: Vec<String> = Vec::new();
    let mut i: usize = 0;
    while i < parts.len()
        invariant
            i <= parts@.len(),
            texts(out@) == safe_names(texts(parts@).subrange(0, i as int)),
        decreases parts@.len() - i,
    {
        let name = trim(parts[i].as_str());
        proof {
            let s = texts(parts@).subrange(0, i as int + 1);
            assert(s.drop_last() =~= texts(parts@).subrange(0, i as int));
            assert(s.last() == parts@[i as int]@);
        }
        if is_safe_text(name) {
            let ghost before = out@;
            out.push(name.to_owned());
            assert(texts(out@) =~= texts(before).push(name@));
        }
        i = i + 1;
    }
    assert(texts(parts@).subrange(0, parts@.len() as int) =~= texts(parts@));
    out
}

/// The themes `index` says it inherits from; see [`inherited_names`].
pub fn inherits(index: &str) -> (r: Vec<String>)
    ensures
        texts(r@) == inherited_names(index@),
        forall|i: int| 0 <= i < r@.len() ==> is_safe_name(#[trigger] r@[i]@),
{
    let lines = split_text(index, '\n');
    let mut out: Vec<String> = Vec::new();
    let mut i: usize = 0;
    while i < lines.len()
        invariant
            i <= lines@.len(),
            texts(out@) == names_in_lines(texts(lines@).subrange(0, i as int)),
        decreases lines@.len() - i,
    {
        let names = names_of_line(lines[i].as_str());
        proof {
            let s = texts(lines@).subrange(0, i as int + 1);
            assert(s.drop_last() =~= texts(lines@).subrange(0, i as int));
            assert(s.last() == lines@[i as int]@);
        }
        let ghost before = out@;
        let mut j: usize = 0;
        while j < names.len()
            invariant
                j <= names@.len(),
                texts(out@) == texts(before) + texts(names@).subrange(0, j as int),
            decreases names@.len() - j,
        {
            let ghost mid = out@;
            out.push(names[j].clone());
            proof {
                assert(texts(out@) =~= texts(mid).push(names@[j as int]@));
                assert(texts(names@).subrange(0, j as int + 1) =~= texts(names@).subrange(
                    0,
                    j as int,
                ).push(names@[j as int]@));
                assert(texts(out@) =~= texts(before) + texts(names@).subrange(0, j as int + 1));
            }
            j = j + 1;
        }
        assert(texts(names@).subrange(0, names@.len() as int) =~= texts(names@));
        i = i + 1;
    }
    proof {
        assert(texts(lines@).subrange(0, lines@.len() as int) =~= texts(lines@));
        lemma_names_in_lines_safe(texts(lines@));
        assert forall|i: int| 0 <= i < out@.len() implies is_safe_name(#[trigger] out@[i]@) by {
            assert(texts(out@)[i] == out@[i]@);
        }
    }
    out
}

// ---------------------------------------------------------------------------
// The chain of themes.

/// The themes searched after the user's own chain: Ubuntu's default, and
/// the one every theme ends at.
pub open spec fn stock_themes() -> Seq<Seq<char>> {
    seq!["Yaru"@, "freedesktop"@]
}

fn stock_theme(i: usize) -> (r: &'static str)
    requires
        i < 2,
    ensures
        r@ == stock_themes()[i as int],
        is_safe_name(r@),
{
    if i == 0 {
        let r = "Yaru";
        proof {
            reveal_strlit("Yaru");
            assert(!r@.contains('/')) by {
                if r@.contains('/') {
                    let w = choose|w: int| 0 <= w < r@.len() && r@[w] == '/';
                }
            }
        }
        r
    } else {
        let r = "freedesktop";
        proof {
            reveal_strlit("freedesktop");
            assert(!r@.contains('/')) by {
                if r@.contains('/') {
                    let w = choose|w: int| 0 <= w < r@.len() && r@[w] == '/';
                }
            }
        }
        r
    }
}

fn contains_name(names: &Vec<String>, name: &str) -> (r: bool)
    ensures
        r == texts(names@).contains(name@),
{
    crate::ids::contains_text(names, name)
}

/// `read_index`, asked for the theme `name`, may answer `index` (as text).
pub open spec fn may_read<F: Fn(&str) -> Option<String>>(
    read_index: F,
    name: Seq<char>,
    index: Option<Seq<char>>,
) -> bool {
    exists|asked: &str, got: Option<String>|
        #[trigger] call_ensures(read_index, (asked,), got) && asked@ == name && opt_string(got)
            == index
}

/// The breadth-first walk over themes, for indexes as `index_of` gives
/// them: `queue` from `head` on is still to visit, `chain` is what has been
/// visited. A theme already visited is passed over, as is everything once
/// [`MAX_THEMES`] have been; a new one is visited and what its index
/// inherits joins the end of the queue.
pub open spec fn walk_themes(
    queue: Seq<Seq<char>>,
    head: int,
    chain: Seq<Seq<char>>,
    index_of: spec_fn(Seq<char>) -> Option<Seq<char>>,
) -> Seq<Seq<char>>
    decreases MAX_THEMES - chain.len(), queue.len() - head,
{
    if head < 0 || head >= queue.len() {
        chain
    } else {
        let name = queue[head];
        if chain.len() >= MAX_THEMES || chain.contains(name) {
            walk_themes(queue, head + 1, chain, index_of)
        } else {
            let more = match index_of(name) {
                Some(index) => inherited_names(index),
                None => Seq::empty(),
            };
            walk_themes(queue + more, head + 1, chain.push(name), index_of)
        }
    }
}

/// Where the walk starts: the user's theme, if it has a safe name.
pub open spec fn start_queue(theme: Option<Seq<char>>) -> Seq<Seq<char>> {
    match theme {
        Some(t) => if is_safe_name(t) {
            seq![t]
        } else {
            Seq::empty()
        },
        None => Seq::empty(),
    }
}

/// The themes the walk visits from the user's theme.
pub open spec fn visited_themes(
    theme: Option<Seq<char>>,
    index_of: spec_fn(Seq<char>) -> Option<Seq<char>>,
) -> Seq<Seq<char>> {
    walk_themes(start_queue(theme), 0, Seq::empty(), index_of)
}

pub open spec fn add_if_absent(chain: Seq<Seq<char>>, name: Seq<char>) -> Seq<Seq<char>> {
    if chain.contains(name) {
        chain
    } else {
        chain.push(name)
    }
}

/// The chain with the stock themes it lacks after it, in order.
pub open spec fn with_stock(chain: Seq<Seq<char>>) -> Seq<Seq<char>> {
    add_if_absent(add_if_absent(chain, stock_themes()[0]), stock_themes()[1])
}

/// `index_of` agrees with every answer recorded in `answers`.
pub open spec fn agrees(
    index_of: spec_fn(Seq<char>) -> Option<Seq<char>>,
    answers: Map<Seq<char>, Option<Seq<char>>>,
) -> bool {
    forall|n: Seq<char>| #[trigger] answers.dom().contains(n) ==> index_of(n) == answers[n]
}

/// The themes to search, in order: the user's, what it inherits from, what
/// those inherit from, breadth first and each once, at most [`MAX_THEMES`]
/// of them; then the stock themes not already among them.
///
/// `read_index` is asked for each theme's `index.theme` once, as the walk
/// reaches it; the chain is the walk for the answers it gave.
pub fn theme_chain<F>(theme: Option<&str>, read_index: F) -> (r: Vec<String>) where
    F: Fn(&str) -> Option<String>,

    requires
        forall|name: &str| call_requires(read_index, (name,)),
    ensures
        exists|index_of: spec_fn(Seq<char>) -> Option<Seq<char>>|
            {
                let visited = #[trigger] visited_themes(opt_view(theme), index_of);
                &&& texts(r@) == with_stock(visited)
                &&& forall|i: int|
                    0 <= i < visited.len() ==> may_read(
                        read_index,
                        visited[i],
                        #[trigger] index_of(visited[i]),
                    )
            },
        forall|i: int| 0 <= i < r@.len() ==> is_safe_name(#[trigger] r@[i]@),
        all_different(texts(r@)),
        texts(r@).contains("Yaru"@),
        texts(r@).contains("freedesktop"@),
        r@.len() <= MAX_THEMES + 2,
        match theme {
            Some(t) => is_safe_name(t@) ==> r@[0]@ == t@,
            None => true,
        },
{
    let mut chain: Vec<String> = Vec::new();
    let mut next: Vec<String> = Vec::new();
    if let Some(t) = theme {
        if let Some(name) = safe_theme_name(t) {
            next.push(name.to_owned());
        }
    }
    let ghost start = texts(next@);
    assert(start =~= start_queue(opt_view(theme)));
    let ghost mut answers: Map<Seq<char>, Option<Seq<char>>> = Map::empty();
    assert(texts(chain@) =~= Seq::<Seq<char>>::empty());
    let mut head: usize = 0;
    while head < next.len()
        invariant
            forall|name: &str| call_requires(read_index, (name,)),
            head <= next@.len(),
            forall|i: int| 0 <= i < next@.len() ==> is_safe_name(#[trigger] next@[i]@),
            forall|i: int| 0 <= i < chain@.len() ==> is_safe_name(#[trigger] chain@[i]@),
            all_different(texts(chain@)),
            chain@.len() <= MAX_THEMES,
            chain@.len() == 0 ==> head == 0,
            chain@.len() > 0 ==> next@.len() > 0 && chain@[0]@ == next@[0]@,
            match theme {
                Some(t) => is_safe_name(t@) ==> next@.len() > 0 && next@[0]@ == t@,
                None => true,
            },
            start == start_queue(opt_view(theme)),
            forall|n: Seq<char>|
                #[trigger] answers.dom().contains(n) ==> may_read(read_index, n, answers[n]),
            forall|n: Seq<char>|
                #[trigger] answers.dom().contains(n) <==> texts(chain@).contains(n),
            forall|f: spec_fn(Seq<char>) -> Option<Seq<char>>|
                #[trigger] agrees(f, answers) ==> walk_themes(start, 0, Seq::empty(), f)
                    == walk_themes(texts(next@), head as int, texts(chain@), f),
        decreases MAX_THEMES - chain@.len(), next@.len() - head,
    {
        let name = next[head].clone();
        let ghost queue = texts(next@);
        let ghost at = head as int;
        let ghost visited = texts(chain@);
        head = head + 1;
        if chain.len() >= MAX_THEMES || contains_name(&chain, name.as_str()) {
            proof {
                assert forall|f: spec_fn(Seq<char>) -> Option<Seq<char>>| #[trigger]
                    agrees(f, answers) implies walk_themes(start, 0, Seq::empty(), f)
                    == walk_themes(texts(next@), head as int, texts(chain@), f) by {
                    assert(queue[at] == name@);
                    assert(walk_themes(queue, at, visited, f) == walk_themes(
                        queue,
                        at + 1,
                        visited,
                        f,
                    ));
                }
            }
            continue;
        }
        let ghost first = next@[0]@;
        let ghost old_answers = answers;
        let got = read_index(name.as_str());
        let ghost answer = opt_string(got);
        assert(may_read(read_index, name@, answer));
        match got {
            Some(index) => {
                let more = inherits(index.as_str());
                let mut k: usize = 0;
                while k < more.len()
                    invariant
                        head <= next@.len(),
                        k <= more@.len(),
                        forall|i: int| 0 <= i < more@.len() ==> is_safe_name(#[trigger] more@[i]@),
                        forall|i: int| 0 <= i < next@.len() ==> is_safe_name(#[trigger] next@[i]@),
                        next@.len() > 0,
                        next@[0]@ == first,
                        texts(next@) == queue + texts(more@).subrange(0, k as int),
                    decreases more@.len() - k,
                {
                    let ghost before = next@;
                    next.push(more[k].clone());
                    proof {
                        assert(texts(next@) =~= texts(before).push(more@[k as int]@));
                        assert(texts(more@).subrange(0, k as int + 1) =~= texts(more@).subrange(
                            0,
                            k as int,
                        ).push(more@[k as int]@));
                    }
                    k = k + 1;
                }
                assert(texts(more@).subrange(0, more@.len() as int) =~= texts(more@));
                assert(texts(next@) == queue + inherited_names(answer->0));
            },
            None => {
                assert(queue + Seq::<Seq<char>>::empty() =~= queue);
            },
        }
        let ghost before = chain@;
        chain.push(name);
        proof {
            assert(texts(chain@) =~= texts(before).push(name@));
            answers = answers.insert(name@, answer);
            assert(!visited.contains(name@));
            assert forall|n: Seq<char>| #[trigger] answers.dom().contains(n) <==> texts(
                chain@,
            ).contains(n) by {
                if texts(chain@).contains(n) && n != name@ {
                    let w = choose|w: int| 0 <= w < texts(chain@).len() && texts(chain@)[w] == n;
                    assert(visited[w] == n);
                }
                if visited.contains(n) {
                    let w = choose|w: int| 0 <= w < visited.len() && visited[w] == n;
                    assert(texts(chain@)[w] == n);
                }
                assert(texts(chain@)[visited.len() as int] == name@);
            }
            assert forall|f: spec_fn(Seq<char>) -> Option<Seq<char>>| #[trigger]
                agrees(f, answers) implies walk_themes(start, 0, Seq::empty(), f) == walk_themes(
                texts(next@),
                head as int,
                texts(chain@),
                f,
            ) by {
                assert(agrees(f, old_answers)) by {
                    assert forall|n: Seq<char>| #[trigger]
                        old_answers.dom().contains(n) implies f(n) == old_answers[n] by {
                        assert(answers.dom().contains(n));
                        assert(n != name@);
                    }
                }
                assert(answers.dom().contains(name@));
                assert(f(name@) == answer);
                assert(queue[at] == name@);
            }
        }
    }
    let ghost index_of = |n: Seq<char>| if answers.dom().contains(n) {
        answers[n]
    } else {
        None
    };
    let ghost visited = texts(chain@);
    proof {
        assert(agrees(index_of, answers));
        assert(visited_themes(opt_view(theme), index_of) == visited);
        assert forall|i: int| 0 <= i < visited.len() implies may_read(
            read_index,
            visited[i],
            #[trigger] index_of(visited[i]),
        ) by {
            assert(answers.dom().contains(visited[i]));
        }
    }
    let mut s: usize = 0;
    while s < 2
        invariant
            s <= 2,
            forall|i: int| 0 <= i < chain@.len() ==> is_safe_name(#[trigger] chain@[i]@),
            all_different(texts(chain@)),
            chain@.len() <= MAX_THEMES + s,
            forall|j: int| 0 <= j < s ==> texts(chain@).contains(#[trigger] stock_themes()[j]),
            match theme {
                Some(t) => is_safe_name(t@) ==> chain@.len() > 0 && chain@[0]@ == t@,
                None => true,
            },
            s == 0 ==> texts(chain@) == visited,
            s == 1 ==> texts(chain@) == add_if_absent(visited, stock_themes()[0]),
            s == 2 ==> texts(chain@) == with_stock(visited),
        decreases 2 - s,
    {
        let stock = stock_theme(s);
        let ghost was = texts(chain@);
        if !contains_name(&chain, stock) {
            let ghost before = chain@;
            chain.push(stock.to_owned());
            proof {
                assert(texts(chain@) =~= texts(before).push(stock@));
                assert(texts(chain@)[chain@.len() - 1] == stock@);
                assert forall|j: int| 0 <= j < s implies texts(chain@).contains(
                    #[trigger] stock_themes()[j],
                ) by {
                    let w = choose|w: int|
                        0 <= w < texts(before).len() && texts(before)[w] == stock_themes()[j];
                    assert(texts(chain@)[w] == stock_themes()[j]);
                }
            }
        }
        assert(texts(chain@) == add_if_absent(was, stock_themes()[s as int]));
        assert(texts(chain@).contains(stock_themes()[s as int]));
        s = s + 1;
    }
    assert(texts(chain@).contains(stock_themes()[0]));
    assert(texts(chain@).contains(stock_themes()[1]));
    chain
}


// ---------------------------------------------------------------------------
// Where the files are.

/// The file extensions a sound may have, in the order they are tried:
/// `.oga` is what the stock themes ship.
pub open spec fn extensions() -> Seq<Seq<char>> {
    seq!["oga"@, "ogg"@, "wav"@]
}

fn extension(i: usize) -> (r: &'static str)
    requires
        i < EXTENSION_COUNT,
    ensures
        r@ == extensions()[i as int],
{
    if i == 0 {
        "oga"
    } else if i == 1 {
        "ogg"
    } else {
        "wav"
    }
}

/// The user's own copy of a theme: its directory itself, where GNOME keeps
/// `__custom`, then its `stereo` directory.
pub open spec fn own_dirs(data_home: Option<Seq<char>>, theme: Seq<char>) -> Seq<Seq<char>> {
    match data_home {
        Some(home) => {
            let own = joined(joined(home, "sounds"@), theme);
            seq![own, joined(own, "stereo"@)]
        },
        None => Seq::empty(),
    }
}

/// The theme's `stereo` directory under each system sound directory.
pub open spec fn system_dirs(system_sounds: Seq<Seq<char>>, theme: Seq<char>) -> Seq<Seq<char>> {
    system_sounds.map_values(|s: Seq<char>| joined(joined(s, theme), "stereo"@))
}

/// Every directory searched, in order: for each theme, the user's copy
/// before the system's.
pub open spec fn search_dirs(
    themes: Seq<Seq<char>>,
    data_home: Option<Seq<char>>,
    system_sounds: Seq<Seq<char>>,
) -> Seq<Seq<char>>
    decreases themes.len(),
{
    if themes.len() == 0 {
        Seq::empty()
    } else {
        search_dirs(themes.drop_last(), data_home, system_sounds) + own_dirs(
            data_home,
            themes.last(),
        ) + system_dirs(system_sounds, themes.last())
    }
}

/// The files an event may have in one directory, in extension order.
pub open spec fn files_in(dir: Seq<char>, event_id: Seq<char>) -> Seq<Seq<char>> {
    extensions().map_values(|e: Seq<char>| joined(dir, event_id + "."@ + e))
}

/// Every file looked for, in order: the directory counts for more than the
/// extension.
pub open spec fn search_files(dirs: Seq<Seq<char>>, event_id: Seq<char>) -> Seq<Seq<char>>
    decreases dirs.len(),
{
    if dirs.len() == 0 {
        Seq::empty()
    } else {
        search_files(dirs.drop_last(), event_id) + files_in(dirs.last(), event_id)
    }
}

pub open spec fn opt_view(o: Option<&str>) -> Option<Seq<char>> {
    match o {
        Some(s) => Some(s@),
        None => None,
    }
}

fn push_all(out: &mut Vec<String>, more: Vec<String>)
    ensures
        texts(final(out)@) == texts(old(out)@) + texts(more@),
{
    let mut i: usize = 0;
    while i < more.len()
        invariant
            i <= more@.len(),
            texts(out@) == texts(old(out)@) + texts(more@).subrange(0, i as int),
        decreases more@.len() - i,
    {
        let ghost before = out@;
        out.push(more[i].clone());
        proof {
            assert(texts(out@) =~= texts(before).push(more@[i as int]@));
            assert(texts(more@).subrange(0, i as int + 1) =~= texts(more@).subrange(
                0,
                i as int,
            ).push(more@[i as int]@));
            assert(texts(out@) =~= texts(old(out)@) + texts(more@).subrange(0, i as int + 1));
        }
        i = i + 1;
    }
    assert(texts(more@).subrange(0, more@.len() as int) =~= texts(more@));
}

/// The directories searched; see [`search_dirs`].
pub fn sound_directories(
    themes: &[String],
    data_home: Option<&str>,
    system_sounds: &[String],
) -> (r: Vec<String>)
    ensures
        texts(r@) == search_dirs(texts(themes@), opt_view(data_home), texts(system_sounds@)),
{
    let mut out: Vec<String> = Vec::new();
    let mut t: usize = 0;
    while t < themes.len()
        invariant
            t <= themes@.len(),
            texts(out@) == search_dirs(
                texts(themes@).subrange(0, t as int),
                opt_view(data_home),
                texts(system_sounds@),
            ),
        decreases themes@.len() - t,
    {
        let theme = themes[t].as_str();
        let mut own: Vec<String> = Vec::new();
        if let Some(home) = data_home {
            let base = join_path(join_path(home, "sounds").as_str(), theme);
            let stereo = join_path(base.as_str(), "stereo");
            own.push(base);
            own.push(stereo);
        }
        assert(texts(own@) =~= own_dirs(opt_view(data_home), theme@));
        let mut system: Vec<String> = Vec::new();
        let mut k: usize = 0;
        while k < system_sounds.len()
            invariant
                k <= system_sounds@.len(),
                texts(system@) == system_dirs(texts(system_sounds@).subrange(0, k as int), theme@),
            decreases system_sounds@.len() - k,
        {
            let dir = join_path(join_path(system_sounds[k].as_str(), theme).as_str(), "stereo");
            let ghost before = system@;
            system.push(dir);
            proof {
                assert(texts(system@) =~= texts(before).push(dir@));
                assert(system_dirs(texts(system_sounds@).subrange(0, k as int + 1), theme@)
                    =~= system_dirs(texts(system_sounds@).subrange(0, k as int), theme@).push(
                    joined(joined(system_sounds@[k as int]@, theme@), "stereo"@),
                ));
            }
            k = k + 1;
        }
        assert(texts(system_sounds@).subrange(0, system_sounds@.len() as int) =~= texts(
            system_sounds@,
        ));
        push_all(&mut out, own);
        push_all(&mut out, system);
        proof {
            let s = texts(themes@).subrange(0, t as int + 1);
            assert(s.drop_last() =~= texts(themes@).subrange(0, t as int));
            assert(s.last() == themes@[t as int]@);
        }
        t = t + 1;
    }
    assert(texts(themes@).subrange(0, themes@.len() as int) =~= texts(themes@));
    out
}

/// The files looked for, in order; see [`search_files`].
pub fn candidate_files(event_id: &str, dirs: &Vec<String>) -> (r: Vec<String>)
    ensures
        texts(r@) == search_files(texts(dirs@), event_id@),
{
    let mut out: Vec<String> = Vec::new();
    let mut d: usize = 0;
    while d < dirs.len()
        invariant
            d <= dirs@.len(),
            texts(out@) == search_files(texts(dirs@).subrange(0, d as int), event_id@),
        decreases dirs@.len() - d,
    {
        let mut here: Vec<String> = Vec::new();
        let mut e: usize = 0;
        while e < EXTENSION_COUNT
            invariant
                d < dirs@.len(),
                e <= EXTENSION_COUNT,
                texts(here@) == files_in(dirs@[d as int]@, event_id@).subrange(0, e as int),
            decreases EXTENSION_COUNT - e,
        {
            let mut name: String = event_id.to_owned();
            name.append(".");
            name.append(extension(e));
            let path = join_path(dirs[d].as_str(), name.as_str());
            let ghost before = here@;
            here.push(path);
            proof {
                assert(name@ =~= event_id@ + "."@ + extensions()[e as int]);
                assert(texts(here@) =~= texts(before).push(path@));
                assert(files_in(dirs@[d as int]@, event_id@).subrange(0, e as int + 1)
                    =~= files_in(dirs@[d as int]@, event_id@).subrange(0, e as int).push(
                    path@,
                ));
            }
            e = e + 1;
        }
        assert(files_in(dirs@[d as int]@, event_id@).subrange(0, 3) =~= files_in(
            dirs@[d as int]@,
            event_id@,
        ));
        push_all(&mut out, here);
        proof {
            let s = texts(dirs@).subrange(0, d as int + 1);
            assert(s.drop_last() =~= texts(dirs@).subrange(0, d as int));
            assert(s.last() == dirs@[d as int]@);
        }
        d = d + 1;
    }
    assert(texts(dirs@).subrange(0, dirs@.len() as int) =~= texts(dirs@));
    out
}

/// The first file that exists for one event id, looking in the order
/// [`search_dirs`] and [`search_files`] give. `is_file` is asked about
/// each file in turn until it says yes.
pub fn find_event_file<F>(
    event_id: &str,
    themes: &[String],
    data_home: Option<&str>,
    system_sounds: &[String],
    is_file: &F,
) -> (r: Option<String>) where F: Fn(&str) -> bool
    requires
        forall|path: &str| call_requires(*is_file, (path,)),
    ensures
        ({
            let paths = search_files(
                search_dirs(texts(themes@), opt_view(data_home), texts(system_sounds@)),
                event_id@,
            );
            match r {
                Some(found) => exists|i: int|
                    0 <= i < paths.len() && paths[i] == found@ && (exists|q: &str|
                        q@ == paths[i] && call_ensures(*is_file, (q,), true)) && forall|j: int|
                        0 <= j < i ==> exists|q: &str|
                            q@ == #[trigger] paths[j] && call_ensures(*is_file, (q,), false),
                None => forall|j: int|
                    0 <= j < paths.len() ==> exists|q: &str|
                        q@ == #[trigger] paths[j] && call_ensures(*is_file, (q,), false),
            }
        }),
{
    let dirs = sound_directories(themes, data_home, system_sounds);
    let paths = candidate_files(event_id, &dirs);
    let ghost want = texts(paths@);
    assert(want == search_files(
        search_dirs(texts(themes@), opt_view(data_home), texts(system_sounds@)),
        event_id@,
    ));
    let mut i: usize = 0;
    while i < paths.len()
        invariant
            forall|path: &str| call_requires(*is_file, (path,)),
            i <= paths@.len(),
            want == texts(paths@),
            want == search_files(
                search_dirs(texts(themes@), opt_view(data_home), texts(system_sounds@)),
                event_id@,
            ),
            forall|j: int|
                0 <= j < i ==> exists|q: &str|
                    q@ == #[trigger] want[j] && call_ensures(*is_file, (q,), false),
        decreases paths@.len() - i,
    {
        let path = paths[i].as_str();
        if is_file(path) {
            let found = paths[i].clone();
            proof {
                assert(path@ == want[i as int]);
                assert(found@ == want[i as int]);
                assert(exists|q: &str| q@ == want[i as int] && call_ensures(*is_file, (q,), true));
                let k = i as int;
                assert(0 <= k < want.len() && want[k] == found@ && (exists|q: &str|
                    q@ == want[k] && call_ensures(*is_file, (q,), true)) && forall|j: int|
                    0 <= j < k ==> exists|q: &str|
                        q@ == #[trigger] want[j] && call_ensures(*is_file, (q,), false));
            }
            return Some(found);
        }
        proof {
            assert(path@ == want[i as int]);
        }
        i = i + 1;
    }
    None
}

/// Where the user's own data lives: `XDG_DATA_HOME`, or `~/.local/share`
/// when that is unset. A relative value is ignored, as the base directory
/// specification says.
pub open spec fn data_home_of(
    xdg_data_home: Option<Seq<char>>,
    home: Option<Seq<char>>,
) -> Option<Seq<char>> {
    match xdg_data_home {
        Some(x) if is_absolute(x) => Some(x),
        _ => match home {
            Some(h) if is_absolute(h) => Some(joined(joined(h, ".local"@), "share"@)),
            _ => None,
        },
    }
}

pub open spec fn opt_string(o: Option<String>) -> Option<Seq<char>> {
    match o {
        Some(s) => Some(s@),
        None => None,
    }
}

fn absolute(p: &str) -> (r: bool)
    ensures
        r == is_absolute(p@),
{
    p.unicode_len() > 0 && p.get_char(0) == '/'
}

/// The user's data directory; see [`data_home_of`].
pub fn data_home_from(xdg_data_home: Option<String>, home: Option<String>) -> (r: Option<String>)
    ensures
        opt_string(r) == data_home_of(opt_string(xdg_data_home), opt_string(home)),
{
    if let Some(x) = &xdg_data_home {
        if absolute(x.as_str()) {
            return xdg_data_home;
        }
    }
    match home {
        Some(h) => if absolute(h.as_str()) {
            Some(join_path(join_path(h.as_str(), ".local").as_str(), "share"))
        } else {
            None
        },
        None => None,
    }
}

/// Where themes live when they are not the user's own, if `XDG_DATA_DIRS`
/// does not say.
pub open spec fn default_data_dirs() -> Seq<char> {
    "/usr/local/share:/usr/share"@
}

/// The value of `XDG_DATA_DIRS` in force: unset or empty means the default.
pub open spec fn data_dirs_value(dirs: Option<Seq<char>>) -> Seq<char> {
    match dirs {
        Some(d) => if d.len() > 0 {
            d
        } else {
            default_data_dirs()
        },
        None => default_data_dirs(),
    }
}

/// Some path in `paths` is `p`, component by component.
pub open spec fn has_path(paths: Seq<Seq<char>>, p: Seq<char>) -> bool {
    exists|k: int| 0 <= k < paths.len() && components(#[trigger] paths[k]) == components(p)
}

/// `sounds` in each absolute directory of `parts`, each path once, in
/// order.
pub open spec fn sounds_dirs(parts: Seq<Seq<char>>) -> Seq<Seq<char>>
    decreases parts.len(),
{
    if parts.len() == 0 {
        Seq::empty()
    } else {
        let kept = sounds_dirs(parts.drop_last());
        let dir = joined(parts.last(), "sounds"@);
        if is_absolute(parts.last()) && !has_path(kept, dir) {
            kept.push(dir)
        } else {
            kept
        }
    }
}

fn contains_path(paths: &Vec<String>, p: &str) -> (r: bool)
    ensures
        r == has_path(texts(paths@), p@),
{
    let mut k: usize = 0;
    while k < paths.len()
        invariant
            k <= paths@.len(),
            forall|j: int| 0 <= j < k ==> components(paths@[j]@) != components(p@),
        decreases paths@.len() - k,
    {
        if same_path(paths[k].as_str(), p) {
            assert(texts(paths@)[k as int] == paths@[k as int]@);
            return true;
        }
        k = k + 1;
    }
    proof {
        if has_path(texts(paths@), p@) {
            let w = choose|w: int|
                0 <= w < texts(paths@).len() && components(#[trigger] texts(paths@)[w])
                    == components(p@);
            assert(texts(paths@)[w] == paths@[w]@);
        }
    }
    false
}

/// The system's sound directories, most important first: `sounds` in each
/// directory of `XDG_DATA_DIRS`, as libcanberra searches them.
pub open spec fn system_sound_dirs(dirs: Option<Seq<char>>) -> Seq<Seq<char>> {
    sounds_dirs(pieces(data_dirs_value(dirs), ':'))
}

/// The system's sound directories; see [`system_sound_dirs`].
pub fn system_sounds_from(xdg_data_dirs: Option<String>) -> (r: Vec<String>)
    ensures
        texts(r@) == system_sound_dirs(opt_string(xdg_data_dirs)),
{
    let fallback = "/usr/local/share:/usr/share";
    let dirs: String = match xdg_data_dirs {
        Some(d) => if d.unicode_len() > 0 {
            d
        } else {
            fallback.to_owned()
        },
        None => fallback.to_owned(),
    };
    assert(dirs@ == data_dirs_value(opt_string(xdg_data_dirs)));
    let parts = split_text(dirs.as_str(), ':');
    let mut sounds: Vec<String> = Vec::new();
    let mut i: usize = 0;
    while i < parts.len()
        invariant
            i <= parts@.len(),
            texts(sounds@) == sounds_dirs(texts(parts@).subrange(0, i as int)),
        decreases parts@.len() - i,
    {
        let part = parts[i].as_str();
        proof {
            let s = texts(parts@).subrange(0, i as int + 1);
            assert(s.drop_last() =~= texts(parts@).subrange(0, i as int));
            assert(s.last() == parts@[i as int]@);
        }
        if absolute(part) {
            let dir = join_path(part, "sounds");
            if !contains_path(&sounds, dir.as_str()) {
                let ghost before = sounds@;
                sounds.push(dir);
                assert(texts(sounds@) =~= texts(before).push(dir@));
            }
        }
        i = i + 1;
    }
    assert(texts(parts@).subrange(0, parts@.len() as int) =~= texts(parts@));
    sounds
}

} // verus!

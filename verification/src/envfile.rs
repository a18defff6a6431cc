//! Reading `KEY=value` lines of `.env` files, and the list of files to try.
use vstd::prelude::*;

use crate::text::{
    chars_eq, chars_of, index_of, is_white, lemma_index_of_after, lemma_trim_class_unchanged, lines,
    lines_vec, split_once, split_once_vec, starts_with, strip_cr, strip_prefix_vec, trim, trim_vec,
    views, CharClass,
};

verus! {

/// The name and the raw value of a `.env` line, where the line assigns one:
/// blank lines and `#` comments assign nothing, an `export ` prefix is
/// dropped, and the name and value are cut at the first `=`.
pub open spec fn line_entry(raw: Seq<char>) -> Option<(Seq<char>, Seq<char>)> {
    let line = trim(raw);
    if line.len() == 0 || line[0] == '#' {
        None
    } else {
        let rest = if starts_with(line, "export "@) {
            line.skip(7)
        } else {
            line
        };
        split_once(rest, '=')
    }
}

/// The raw value of the first line, in order, that assigns `key` (its name
/// trimmed).
pub open spec fn lookup_lines(ls: Seq<Seq<char>>, key: Seq<char>) -> Option<Seq<char>>
    decreases ls.len(),
{
    if ls.len() == 0 {
        None
    } else {
        match line_entry(ls[0]) {
            Some((name, value)) => if trim(name) == key {
                Some(value)
            } else {
                lookup_lines(ls.drop_first(), key)
            },
            None => lookup_lines(ls.drop_first(), key),
        }
    }
}

/// The raw value that `contents` assigns to `key`.
pub open spec fn lookup_env(contents: Seq<char>, key: Seq<char>) -> Option<Seq<char>> {
    lookup_lines(lines(contents), key)
}

/// The raw value that the line `KEY=VALUE` (followed by a line break)
/// gives `KEY` is `VALUE`, every `=` inside it kept, where the key holds no
/// white space or `=` and does not begin a comment, and the value is one
/// line that neither begins nor ends with white space.
pub proof fn lemma_env_line_lookup(key: Seq<char>, value: Seq<char>)
    requires
        key.len() > 0,
        key[0] != '#',
        forall|i: int| 0 <= i < key.len() ==> !is_white(#[trigger] key[i]) && key[i] != '=',
        value.len() > 0,
        forall|i: int| 0 <= i < value.len() ==> #[trigger] value[i] != '\n',
        !is_white(value[0]) && !is_white(value.last()),
    ensures
        lookup_env(key + seq!['='] + value + seq!['\n'], key) == Some(value),
{
    let line = key + seq!['='] + value;
    let text = line + seq!['\n'];
    assert(!line.contains('\n')) by {
        if line.contains('\n') {
            let k = choose|k: int| 0 <= k < line.len() && line[k] == '\n';
            if k < key.len() {
                assert(is_white(key[k]));
            } else if k > key.len() {
                assert(value[k - key.len() - 1] == '\n');
            }
        }
    }
    lemma_index_of_after(line, '\n', Seq::empty());
    assert(text =~= line + seq!['\n'] + Seq::<char>::empty());
    assert(text.take(line.len() as int) =~= line);
    assert(text.skip(line.len() as int + 1) =~= Seq::<char>::empty());
    assert(line.last() == value.last());
    assert(strip_cr(line) == line);
    assert(index_of(text, '\n') == line.len());
    assert(lines(Seq::<char>::empty()) =~= Seq::<Seq<char>>::empty());
    assert(lines(text) =~= seq![line]);
    assert(line[0] == key[0]);
    lemma_trim_class_unchanged(line, CharClass::Whitespace);
    assert(!starts_with(line, "export "@)) by {
        reveal_strlit("export ");
        if starts_with(line, "export "@) {
            assert(line.subrange(0, 7) == "export "@);
            if key.len() >= 7 {
                assert(line[6] == key[6]);
                assert(line.subrange(0, 7)[6] == line[6]);
                assert("export "@[6] == ' ');
                assert(is_white(key[6]));
            } else {
                assert(line[key.len() as int] == '=');
                assert(line.subrange(0, 7)[key.len() as int] == '=');
            }
        }
    }
    assert(!key.contains('=')) by {
        if key.contains('=') {
            let k = choose|k: int| 0 <= k < key.len() && key[k] == '=';
            assert(key[k] != '=');
        }
    }
    lemma_index_of_after(key, '=', value);
    assert(line.take(key.len() as int) =~= key);
    assert(line.skip(key.len() as int + 1) =~= value);
    lemma_trim_class_unchanged(key, CharClass::Whitespace);
    assert(lines(text).drop_first() =~= Seq::<Seq<char>>::empty());
}

/// The name and raw value that one line assigns.
fn line_entry_vec(raw: &Vec<char>) -> (r: Option<(Vec<char>, Vec<char>)>)
    ensures
        match line_entry(raw@) {
            Some((n, v)) => r matches Some((x, y)) && x@ == n && y@ == v,
            None => r is None,
        },
{
    let line = trim_vec(raw, CharClass::Whitespace);
    if line.len() == 0 || line[0] == '#' {
        return None;
    }
    let export = chars_of("export ");
    proof {
        reveal_strlit("export ");
    }
    let rest = match strip_prefix_vec(&line, &export) {
        Some(r) => r,
        None => line,
    };
    split_once_vec(&rest, '=')
}

/// The raw value (untrimmed) that `contents` assigns to `key`.
pub fn lookup_env_value(contents: &str, key: &str) -> (r: Option<Vec<char>>)
    ensures
        match lookup_env(contents@, key@) {
            Some(v) => r matches Some(x) && x@ == v,
            None => r is None,
        },
{
    let ls = lines_vec(&chars_of(contents));
    let k = chars_of(key);
    let mut i: usize = 0;
    assert(views(ls@).skip(0) == views(ls@));
    while i < ls.len()
        invariant
            i <= ls.len(),
            k@ == key@,
            lookup_env(contents@, key@) == lookup_lines(views(ls@).skip(i as int), key@),
            views(ls@) == lines(contents@),
        decreases ls.len() - i,
    {
        let ghost rest = views(ls@).skip(i as int);
        assert(rest[0] == ls@[i as int]@);
        assert(rest.drop_first() == views(ls@).skip(i + 1));
        match line_entry_vec(&ls[i]) {
            Some((name, value)) => {
                let n = trim_vec(&name, CharClass::Whitespace);
                if chars_eq(&n, &k) {
                    return Some(value);
                }
            },
            None => {},
        }
        i = i + 1;
    }
    None
}

/// The first candidate, in order, that was read and whose contents give a
/// value for `key` through `parse`.
pub open spec fn first_value(
    contents: Seq<Option<Seq<char>>>,
    parse: spec_fn(Seq<char>) -> Option<Seq<char>>,
) -> Option<Seq<char>>
    decreases contents.len(),
{
    if contents.len() == 0 {
        None
    } else {
        match contents[0] {
            Some(c) => match parse(c) {
                Some(v) => Some(v),
                None => first_value(contents.drop_first(), parse),
            },
            None => first_value(contents.drop_first(), parse),
        }
    }
}

pub open spec fn opt_views(v: Seq<Option<String>>) -> Seq<Option<Seq<char>>> {
    v.map_values(
        |o: Option<String>|
            match o {
                Some(s) => Some(s@),
                None => None,
            },
    )
}

/// `candidates` after adding each path of `paths`, in order, that it does
/// not hold yet.
pub open spec fn add_unique(candidates: Seq<Seq<char>>, paths: Seq<Seq<char>>) -> Seq<Seq<char>>
    decreases paths.len(),
{
    if paths.len() == 0 {
        candidates
    } else {
        let next = if candidates.contains(paths[0]) {
            candidates
        } else {
            candidates.push(paths[0])
        };
        add_unique(next, paths.drop_first())
    }
}

pub open spec fn string_views(v: Seq<String>) -> Seq<Seq<char>> {
    v.map_values(|s: String| s@)
}

/// Adds the `.env` path of each ancestor directory of a start directory
/// (`ancestor_env_paths`, from the directory itself upward) to
/// `candidates`, skipping the paths that it holds already. Paths are
/// compared as text, so they are to be given in the normal form of their
/// components, where one path has one spelling.
pub fn collect_env_candidates(ancestor_env_paths: &Vec<String>, candidates: &mut Vec<String>)
    ensures
        string_views(final(candidates)@) == add_unique(
            string_views(old(candidates)@),
            string_views(ancestor_env_paths@),
        ),
{
    let mut i: usize = 0;
    assert(string_views(ancestor_env_paths@).skip(0) == string_views(ancestor_env_paths@));
    while i < ancestor_env_paths.len()
        invariant
            i <= ancestor_env_paths.len(),
            add_unique(string_views(old(candidates)@), string_views(ancestor_env_paths@))
                == add_unique(
                string_views(candidates@),
                string_views(ancestor_env_paths@).skip(i as int),
            ),
        decreases ancestor_env_paths.len() - i,
    {
        let ghost before = candidates@;
        let ghost rest = string_views(ancestor_env_paths@).skip(i as int);
        assert(rest[0] == ancestor_env_paths@[i as int]@);
        assert(rest.drop_first() == string_views(ancestor_env_paths@).skip(i + 1));
        let candidate = &ancestor_env_paths[i];
        let mut found = false;
        let mut j: usize = 0;
        while j < candidates.len()
            invariant
                j <= candidates.len(),
                candidates@ == before,
                found <==> exists|k: int| 0 <= k < j && candidates@[k]@ == candidate@,
            decreases candidates.len() - j,
        {
            if candidates[j] == *candidate {
                found = true;
            }
            j = j + 1;
        }
        proof {
            if found {
                let k = choose|k: int| 0 <= k < j && candidates@[k]@ == candidate@;
                assert(string_views(before)[k] == candidate@);
                assert(string_views(before).contains(candidate@));
            } else {
                assert forall|k: int| 0 <= k < string_views(before).len() implies string_views(
                    before,
                )[k] != candidate@ by {
                    assert(string_views(before)[k] == candidates@[k]@);
                }
                assert(!string_views(before).contains(candidate@));
            }
        }
        if !found {
            candidates.push(candidate.clone());
            assert(string_views(candidates@) =~= string_views(before).push(candidate@));
        }
        i = i + 1;
    }
    assert(string_views(ancestor_env_paths@).skip(i as int).len() == 0);
}

/// Adding paths keeps what was there, in place.
pub proof fn lemma_add_unique_keeps(candidates: Seq<Seq<char>>, paths: Seq<Seq<char>>)
    ensures
        add_unique(candidates, paths).len() >= candidates.len(),
        add_unique(candidates, paths).take(candidates.len() as int) == candidates,
    decreases paths.len(),
{
    if paths.len() > 0 {
        let next = if candidates.contains(paths[0]) {
            candidates
        } else {
            candidates.push(paths[0])
        };
        lemma_add_unique_keeps(next, paths.drop_first());
        assert(next.take(candidates.len() as int) == candidates);
        assert(add_unique(candidates, paths).take(candidates.len() as int) == add_unique(
            candidates,
            paths,
        ).take(next.len() as int).take(candidates.len() as int));
    } else {
        assert(candidates.take(candidates.len() as int) == candidates);
    }
}

/// Every path offered ends up among the candidates, and candidates without
/// repeats stay without repeats: the list of `.env` files to try names
/// each file once.
pub proof fn lemma_add_unique_complete(candidates: Seq<Seq<char>>, paths: Seq<Seq<char>>)
    requires
        candidates.no_duplicates(),
    ensures
        add_unique(candidates, paths).no_duplicates(),
        forall|i: int| 0 <= i < paths.len() ==> add_unique(candidates, paths).contains(
            #[trigger] paths[i],
        ),
        forall|p: Seq<char>| candidates.contains(p) ==> add_unique(candidates, paths).contains(p),
        forall|p: Seq<char>| #[trigger]
            add_unique(candidates, paths).contains(p) ==> candidates.contains(p)
                || paths.contains(p),
    decreases paths.len(),
{
    if paths.len() > 0 {
        let next = if candidates.contains(paths[0]) {
            candidates
        } else {
            candidates.push(paths[0])
        };
        assert(next.no_duplicates()) by {
            if !candidates.contains(paths[0]) {
                assert forall|i: int, j: int|
                    0 <= i < next.len() && 0 <= j < next.len() && i != j implies next[i]
                    != next[j] by {
                    if i == candidates.len() as int {
                        assert(next[j] == candidates[j]);
                        assert(candidates.contains(candidates[j]));
                    } else if j == candidates.len() as int {
                        assert(next[i] == candidates[i]);
                        assert(candidates.contains(candidates[i]));
                    }
                }
            }
        }
        assert(next.contains(paths[0])) by {
            if !candidates.contains(paths[0]) {
                assert(next[candidates.len() as int] == paths[0]);
            }
        }
        assert forall|p: Seq<char>| candidates.contains(p) implies next.contains(p) by {
            let k = choose|k: int| 0 <= k < candidates.len() && candidates[k] == p;
            assert(next[k] == p);
        }
        lemma_add_unique_complete(next, paths.drop_first());
        assert forall|i: int| 0 <= i < paths.len() implies add_unique(
            candidates,
            paths,
        ).contains(#[trigger] paths[i]) by {
            if i > 0 {
                assert(paths[i] == paths.drop_first()[i - 1]);
            }
        }
        assert forall|p: Seq<char>| #[trigger]
            add_unique(candidates, paths).contains(p) implies candidates.contains(p)
            || paths.contains(p) by {
            if next.contains(p) && !candidates.contains(p) {
                let k = choose|k: int| 0 <= k < next.len() && next[k] == p;
                assert(p == paths[0]);
                assert(paths[0] == p);
            }
            if paths.drop_first().contains(p) {
                let k = choose|k: int| 0 <= k < paths.drop_first().len() && paths.drop_first()[k]
                    == p;
                assert(paths[k + 1] == p);
            }
        }
    }
}

} // verus!

//! The decision half of the bootstrap script runner: how a script's text
//! splits into the statements that are executed one by one, and which
//! files of the script directory belong to the generic pass. Reading the
//! files and executing the statements is I/O and lives outside the
//! library.
use vstd::prelude::*;

use crate::strutil::str_eq;

verus! {

/// The pieces of `s` between statement separators, in order; a text
/// without a separator is one piece, and a trailing separator leaves a
/// trailing empty piece.
pub open spec fn split_statements_spec(s: Seq<char>) -> Seq<Seq<char>>
    decreases s.len(),
{
    if s.len() == 0 {
        seq![Seq::<char>::empty()]
    } else if s.last() == ';' {
        split_statements_spec(s.drop_last()).push(Seq::<char>::empty())
    } else {
        let r = split_statements_spec(s.drop_last());
        r.update(r.len() - 1, r.last().push(s.last()))
    }
}

pub proof fn lemma_split_statements_len(s: Seq<char>)
    ensures
        split_statements_spec(s).len() >= 1,
    decreases s.len(),
{
    if s.len() > 0 {
        lemma_split_statements_len(s.drop_last());
    }
}

/// The views of the built pieces.
pub open spec fn strings_view(s: Seq<String>) -> Seq<Seq<char>> {
    s.map_values(|x: String| x@)
}

/// Splits a script's text on the statement separator `;`, as the runner
/// does before executing the statements one by one.
#[verifier::loop_isolation(false)]
pub fn split_statements(content: &str) -> (r: Vec<String>)
    ensures
        strings_view(r@) == split_statements_spec(content@),
{
    let n = content.unicode_len();
    let mut out: Vec<String> = Vec::new();
    let mut seg_start: usize = 0;
    let mut i: usize = 0;
    proof {
        assert(content@.take(0) =~= Seq::<char>::empty());
        assert(content@.subrange(0, 0) =~= Seq::<char>::empty());
        assert(strings_view(out@).push(content@.subrange(0, 0)) =~= split_statements_spec(
            content@.take(0),
        ));
    }
    while i < n
        invariant
            seg_start <= i <= n,
            n == content@.len(),
            strings_view(out@).push(content@.subrange(seg_start as int, i as int))
                == split_statements_spec(content@.take(i as int)),
        decreases n - i,
    {
        let ghost prev = content@.take(i as int);
        let c = content.get_char(i);
        proof {
            assert(content@.take(i as int + 1).drop_last() =~= prev);
            assert(content@.take(i as int + 1).last() == content@[i as int]);
            lemma_split_statements_len(prev);
        }
        if c == ';' {
            out.push(content.substring_char(seg_start, i).to_owned());
            seg_start = i + 1;
            proof {
                assert(strings_view(out@) =~= split_statements_spec(prev));
                assert(strings_view(out@).push(Seq::<char>::empty()) =~= split_statements_spec(
                    content@.take(i as int + 1),
                ));
                assert(content@.subrange(seg_start as int, i as int + 1) =~= Seq::<
                    char,
                >::empty());
                assert(strings_view(out@).push(
                    content@.subrange(seg_start as int, i as int + 1),
                ) == split_statements_spec(content@.take(i as int + 1)));
            }
        } else {
            proof {
                let r = split_statements_spec(prev);
                assert(r.drop_last() =~= strings_view(out@));
                assert(r.last() == content@.subrange(seg_start as int, i as int));
                assert(r.last().push(content@[i as int]) =~= content@.subrange(
                    seg_start as int,
                    i as int + 1,
                ));
                assert(r.update(r.len() - 1, r.last().push(content@[i as int]))
                    =~= strings_view(out@).push(
                    content@.subrange(seg_start as int, i as int + 1),
                ));
                assert(strings_view(out@).push(
                    content@.subrange(seg_start as int, i as int + 1),
                ) == split_statements_spec(content@.take(i as int + 1)));
            }
        }
        i += 1;
    }
    out.push(content.substring_char(seg_start, n).to_owned());
    proof {
        assert(content@.take(n as int) =~= content@);
        assert(strings_view(out@) =~= split_statements_spec(content@));
    }
    out
}

/// Whether a path names a script of the generic pass: it carries the
/// `.sql` suffix and is not the distinguished recreate script, which
/// runs first and only against the administrative connection.
pub open spec fn is_app_script_spec(path: Seq<char>, recreate: Seq<char>) -> bool {
    &&& path.len() >= 4
    &&& path.subrange(path.len() - 4, path.len() as int) == ".sql"@
    &&& path != recreate
}

/// Decides whether a directory entry belongs to the generic per-file
/// pass of the bootstrap runner.
pub fn is_app_script(path: &str, recreate: &str) -> (r: bool)
    ensures
        r == is_app_script_spec(path@, recreate@),
{
    proof {
        reveal_strlit(".sql");
    }
    let n = path.unicode_len();
    if n < 4 {
        return false;
    }
    let suffix_ok = path.get_char(n - 4) == '.' && path.get_char(n - 3) == 's' && path.get_char(
        n - 2,
    ) == 'q' && path.get_char(n - 1) == 'l';
    if !suffix_ok {
        proof {
            let sub = path@.subrange(path@.len() - 4, path@.len() as int);
            assert(sub.len() == 4);
            assert(sub[0] == path@[path@.len() - 4]);
            assert(sub[1] == path@[path@.len() - 3]);
            assert(sub[2] == path@[path@.len() - 2]);
            assert(sub[3] == path@[path@.len() - 1]);
            assert(sub != ".sql"@);
        }
        return false;
    }
    proof {
        assert(path@.subrange(path@.len() - 4, path@.len() as int) =~= ".sql"@);
    }
    !str_eq(path, recreate)
}

} // verus!

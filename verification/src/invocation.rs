use vstd::prelude::*;

use crate::cli::arg_views;
use crate::text::{append_str, push_char, str_equal};

verus! {

/// The arguments with a `convert` subcommand in second place removed, so that
/// `sphene convert <input> ...` and `sphene <input> ...` read alike.
pub open spec fn without_convert(raw: Seq<Seq<char>>) -> Seq<Seq<char>> {
    if raw.len() > 1 && raw[1] == "convert"@ {
        raw.remove(1)
    } else {
        raw
    }
}

/// Copies the arguments, leaving out a `convert` subcommand in second place.
pub fn strip_convert(raw: &[String]) -> (r: Vec<String>)
    ensures
        arg_views(r@) == without_convert(arg_views(raw@)),
{
    let ghost v = arg_views(raw@);
    let skip_second = raw.len() > 1 && str_equal(raw[1].as_str(), "convert");
    let ghost target = without_convert(v);
    let mut out: Vec<String> = Vec::new();
    let mut i: usize = 0;
    while i < raw.len()
        invariant
            i <= raw.len(),
            v == arg_views(raw@),
            skip_second == (raw.len() > 1 && v[1] == "convert"@),
            target == without_convert(v),
            skip_second ==> i <= 1 ==> out@.len() == i,
            skip_second ==> i > 1 ==> out@.len() == i - 1,
            !skip_second ==> out@.len() == i,
            forall|j: int| 0 <= j < out@.len() ==> #[trigger] out@[j]@ == target[j],
        decreases raw.len() - i,
    {
        if !(skip_second && i == 1) {
            let item = raw[i].clone();
            assert(item@ == v[i as int]);
            out.push(item);
        }
        i = i + 1;
    }
    assert(arg_views(out@) =~= target);
    out
}

/// Whether the second argument asks for help or for the version.
pub open spec fn asks_for_help(args: Seq<Seq<char>>) -> bool {
    args.len() > 1 && (args[1] == "--help"@ || args[1] == "-h"@ || args[1] == "--version"@
        || args[1] == "-V"@)
}

/// Reports whether the second argument is `--help`, `-h`, `--version` or `-V`,
/// which the command-line parser answers itself.
pub fn requests_help(args: &[String]) -> (r: bool)
    ensures
        r == asks_for_help(arg_views(args@)),
{
    if args.len() <= 1 {
        return false;
    }
    let second = args[1].as_str();
    str_equal(second, "--help") || str_equal(second, "-h") || str_equal(second, "--version")
        || str_equal(second, "-V")
}

/// Whether `s` ends with `suffix`.
pub open spec fn ends_with(s: Seq<char>, suffix: Seq<char>) -> bool {
    s.len() >= suffix.len() && s.skip(s.len() - suffix.len()) == suffix
}

fn str_ends_with(s: &str, suffix: &str) -> (r: bool)
    ensures
        r == ends_with(s@, suffix@),
{
    let len = s.unicode_len();
    let tail_len = suffix.unicode_len();
    if len < tail_len {
        return false;
    }
    let tail = s.substring_char(len - tail_len, len);
    assert(tail@ =~= s@.skip(len - tail_len));
    str_equal(tail, suffix)
}

/// The directories of a `PATH` value: the text between its `:` separators,
/// read from the left; `cur` holds the part of the current directory already
/// read.
pub open spec fn path_directories_from(p: Seq<char>, cur: Seq<char>) -> Seq<Seq<char>>
    decreases p.len(),
{
    if p.len() == 0 {
        seq![cur]
    } else if p[0] == ':' {
        seq![cur] + path_directories_from(p.drop_first(), Seq::empty())
    } else {
        path_directories_from(p.drop_first(), cur.push(p[0]))
    }
}

/// The directories listed in a `PATH` value, in order, empty ones included.
pub open spec fn path_directories(p: Seq<char>) -> Seq<Seq<char>> {
    path_directories_from(p, Seq::empty())
}

/// Splits a `PATH` value at its `:` separators.
pub fn split_path_variable(p: &str) -> (r: Vec<String>)
    ensures
        arg_views(r@) == path_directories(p@),
{
    let len = p.unicode_len();
    let mut done: Vec<String> = Vec::new();
    let mut cur = String::new();
    let mut i: usize = 0;
    assert(p@.skip(0) =~= p@);
    while i < len
        invariant
            i <= len,
            len == p@.len(),
            arg_views(done@) + path_directories_from(p@.skip(i as int), cur@) == path_directories(
                p@,
            ),
        decreases len - i,
    {
        let c = p.get_char(i);
        let ghost rest = p@.skip(i as int);
        assert(rest.drop_first() =~= p@.skip(i + 1));
        assert(rest[0] == c);
        if c == ':' {
            let ghost before = arg_views(done@);
            let finished = cur;
            done.push(finished);
            cur = String::new();
            assert(arg_views(done@) =~= before.push(finished@));
            assert(before + path_directories_from(rest, finished@) =~= before.push(finished@)
                + path_directories_from(p@.skip(i + 1), cur@));
        } else {
            push_char(&mut cur, c);
        }
        i = i + 1;
    }
    let ghost before = arg_views(done@);
    assert(p@.skip(len as int) =~= Seq::<char>::empty());
    let last = cur;
    done.push(last);
    assert(arg_views(done@) =~= before.push(last@));
    done
}

/// `name` inside directory `dir`: joined with a `/` unless `dir` already ends
/// with one.
pub open spec fn join_name(dir: Seq<char>, name: Seq<char>) -> Seq<char> {
    if dir.len() > 0 && dir.last() == '/' {
        dir + name
    } else {
        dir + "/"@ + name
    }
}

fn joined(dir: &str, name: &str) -> (r: String)
    ensures
        r@ == join_name(dir@, name@),
{
    let mut r = String::from_str(dir);
    let len = dir.unicode_len();
    if !(len > 0 && dir.get_char(len - 1) == '/') {
        append_str(&mut r, "/");
    }
    append_str(&mut r, name);
    r
}

/// The ImageMagick executables looked for in the directories `dirs`: in each
/// non-empty directory ImageMagick 7's `magick`, then ImageMagick 6's
/// `convert`.
pub open spec fn executables_in(dirs: Seq<Seq<char>>) -> Seq<Seq<char>>
    decreases dirs.len(),
{
    if dirs.len() == 0 {
        Seq::empty()
    } else if dirs.last().len() == 0 {
        executables_in(dirs.drop_last())
    } else {
        executables_in(dirs.drop_last()) + seq![
            join_name(dirs.last(), "magick"@),
            join_name(dirs.last(), "convert"@),
        ]
    }
}

/// The ImageMagick executables tried in turn: the system's `/usr/bin/magick`
/// and `/usr/bin/convert`, then those in each directory of the `PATH` value,
/// when there is one.
pub open spec fn fallback_candidates(path_var: Option<Seq<char>>) -> Seq<Seq<char>> {
    seq!["/usr/bin/magick"@, "/usr/bin/convert"@] + match path_var {
        Some(p) => executables_in(path_directories(p)),
        None => Seq::empty(),
    }
}

/// Lists the ImageMagick executables in the order they are tried, given the
/// value of the `PATH` environment variable.
pub fn fallback_executables(path_var: Option<&str>) -> (r: Vec<String>)
    ensures
        arg_views(r@) == fallback_candidates(
            match path_var {
                Some(p) => Some(p@),
                None => None,
            },
        ),
{
    let mut r: Vec<String> = Vec::new();
    r.push(String::from_str("/usr/bin/magick"));
    r.push(String::from_str("/usr/bin/convert"));
    let ghost system = arg_views(r@);
    assert(system =~= seq!["/usr/bin/magick"@, "/usr/bin/convert"@]);
    if let Some(p) = path_var {
        let dirs = split_path_variable(p);
        let ghost d = arg_views(dirs@);
        let mut i: usize = 0;
        while i < dirs.len()
            invariant
                i <= dirs@.len(),
                d == arg_views(dirs@),
                d == path_directories(p@),
                arg_views(r@) == system + executables_in(d.take(i as int)),
            decreases dirs.len() - i,
        {
            let dir = dirs[i].as_str();
            assert(d.take(i + 1).drop_last() =~= d.take(i as int));
            assert(d.take(i + 1).last() == dir@);
            if dir.unicode_len() > 0 {
                let ghost before = arg_views(r@);
                let m = joined(dir, "magick");
                let c = joined(dir, "convert");
                r.push(m);
                r.push(c);
                assert(arg_views(r@) =~= before + seq![m@, c@]);
            }
            i = i + 1;
        }
        assert(d.take(dirs@.len() as int) =~= d);
    } else {
        assert(arg_views(r@) =~= system + Seq::<Seq<char>>::empty());
    }
    r
}

/// The first candidate that exists and is not this program itself.
pub open spec fn first_usable(exists: Seq<bool>, is_self: Seq<bool>) -> Option<int> {
    if exists|i: int| 0 <= i < exists.len() && exists[i] && !is_self[i] {
        Some(
            choose|i: int|
                0 <= i < exists.len() && exists[i] && !is_self[i] && forall|j: int|
                    0 <= j < i ==> !(exists[j] && !is_self[j]),
        )
    } else {
        None
    }
}

/// The candidate picked is one that exists and is not this program, and every
/// candidate before it is missing or is this program; when none is picked,
/// every candidate is missing or is this program.
pub proof fn lemma_first_usable_is_first_runnable(exists: Seq<bool>, is_self: Seq<bool>)
    requires
        exists.len() == is_self.len(),
    ensures
        first_usable(exists, is_self) matches Some(i) ==> 0 <= i < exists.len() && exists[i]
            && !is_self[i] && forall|j: int| 0 <= j < i ==> !exists[j] || is_self[j],
        first_usable(exists, is_self) is None ==> forall|j: int|
            0 <= j < exists.len() ==> !exists[j] || is_self[j],
{
    if exists|i: int| 0 <= i < exists.len() && exists[i] && !is_self[i] {
        let i = choose|i: int| 0 <= i < exists.len() && exists[i] && !is_self[i];
        lemma_first_runnable_exists(exists, is_self, i);
    }
}

proof fn lemma_first_runnable_exists(exists: Seq<bool>, is_self: Seq<bool>, i: int)
    requires
        0 <= i < exists.len(),
        exists[i] && !is_self[i],
    ensures
        exists|k: int|
            0 <= k < exists.len() && exists[k] && !is_self[k] && forall|j: int|
                0 <= j < k ==> !(exists[j] && !is_self[j]),
    decreases i,
{
    if exists|j: int| 0 <= j < i && exists[j] && !is_self[j] {
        let j = choose|j: int| 0 <= j < i && exists[j] && !is_self[j];
        lemma_first_runnable_exists(exists, is_self, j);
    } else {
        assert(forall|j: int| 0 <= j < i ==> !(exists[j] && !is_self[j]));
    }
}

/// Picks the executable to run among the candidates, given for each whether it
/// exists and whether it is this program itself (which must not call itself).
pub fn choose_fallback(exists: &[bool], is_self: &[bool]) -> (r: Option<usize>)
    requires
        exists@.len() == is_self@.len(),
    ensures
        match r {
            Some(i) => first_usable(exists@, is_self@) == Some(i as int),
            None => first_usable(exists@, is_self@) is None,
        },
        r matches Some(i) ==> i < exists@.len() && exists@[i as int] && !is_self@[i as int],
        r matches Some(i) ==> forall|j: int| 0 <= j < i ==> !exists@[j] || is_self@[j],
        r is None ==> forall|j: int| 0 <= j < exists@.len() ==> !exists@[j] || is_self@[j],
{
    let mut i: usize = 0;
    while i < exists.len()
        invariant
            i <= exists@.len(),
            exists@.len() == is_self@.len(),
            forall|j: int| 0 <= j < i ==> !(exists@[j] && !is_self@[j]),
        decreases exists.len() - i,
    {
        if exists[i] && !is_self[i] {
            let ghost k = choose|k: int|
                0 <= k < exists@.len() && exists@[k] && !is_self@[k] && forall|j: int|
                    0 <= j < k ==> !(exists@[j] && !is_self@[j]);
            assert(0 <= i < exists@.len() && exists@[i as int] && !is_self@[i as int]);
            assert(k == i) by {
                if k < i {
                    assert(!(exists@[k] && !is_self@[k]));
                } else if k > i {
                    assert(!(exists@[i as int] && !is_self@[i as int]));
                }
            }
            return Some(i);
        }
        i = i + 1;
    }
    None
}

/// The arguments handed to an ImageMagick executable: the raw arguments without
/// the program name; for ImageMagick 6's `convert` a leading `convert`
/// subcommand is dropped as well.
pub open spec fn fallback_arguments(raw: Seq<Seq<char>>, executable: Seq<char>) -> Seq<Seq<char>> {
    let args = if raw.len() >= 1 {
        raw.skip(1)
    } else {
        Seq::empty()
    };
    if ends_with(executable, "/convert"@) && args.len() > 0 && args[0] == "convert"@ {
        args.skip(1)
    } else {
        args
    }
}

/// Builds the argument list passed to the ImageMagick `executable`.
pub fn forwarded_arguments(raw: &[String], executable: &str) -> (r: Vec<String>)
    ensures
        arg_views(r@) == fallback_arguments(arg_views(raw@), executable@),
{
    let ghost v = arg_views(raw@);
    let ghost target = fallback_arguments(v, executable@);
    let mut start: usize = if raw.len() >= 1 { 1 } else { 0 };
    if str_ends_with(executable, "/convert") && raw.len() >= 2 && str_equal(
        raw[1].as_str(),
        "convert",
    ) {
        start = 2;
    }
    assert(target =~= v.skip(start as int));
    let mut out: Vec<String> = Vec::new();
    let mut i: usize = start;
    while i < raw.len()
        invariant
            start <= i <= raw.len(),
            v == arg_views(raw@),
            target == v.skip(start as int),
            out@.len() == i - start,
            forall|j: int| 0 <= j < out@.len() ==> #[trigger] out@[j]@ == target[j],
        decreases raw.len() - i,
    {
        let item = raw[i].clone();
        assert(item@ == v[i as int]);
        out.push(item);
        i = i + 1;
    }
    assert(arg_views(out@) =~= target);
    out
}

} // verus!

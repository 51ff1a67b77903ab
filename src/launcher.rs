use crate::text::{joined, owned, pieces, split_on, trim, trim_of, views};
use vstd::prelude::*;

verus! {

/// Whether a text is empty once trimmed.
pub open spec fn blank(s: Seq<char>) -> bool {
    trim_of(s).len() == 0
}

/// Whether `s` is empty or whitespace only.
pub fn is_blank(s: &str) -> (r: bool)
    ensures
        r == blank(s@),
{
    trim(s).unicode_len() == 0
}

/// The binary a workspace runs: its own override when that is not blank,
/// else the application's default, as given.
pub fn effective_binary(workspace_bin: Option<String>, default_bin: Option<String>) -> (r: Option<
    String,
>)
    ensures
        match workspace_bin {
            Some(b) if !blank(b@) => r == Some(b),
            _ => r == default_bin,
        },
{
    match workspace_bin {
        Some(b) => if is_blank(b.as_str()) {
            default_bin
        } else {
            Some(b)
        },
        None => default_bin,
    }
}

/// The command to run and whether it is the default one, which is looked
/// up along the augmented search path.
pub fn command_binary(bin: Option<String>) -> (r: (String, bool))
    ensures
        match bin {
            Some(b) if !blank(b@) => r.0 == b && !r.1,
            _ => r.0@ == "opencode"@ && r.1,
        },
{
    match bin {
        Some(b) => if is_blank(b.as_str()) {
            (owned("opencode"), true)
        } else {
            (b, false)
        },
        None => (owned("opencode"), true),
    }
}

/// An optional text as a value.
pub open spec fn opt_view(o: Option<String>) -> Option<Seq<char>> {
    match o {
        Some(s) => Some(s@),
        None => None,
    }
}

/// The non-empty texts of `ps`, in order.
pub open spec fn non_empty(ps: Seq<Seq<char>>) -> Seq<Seq<char>>
    decreases ps.len(),
{
    if ps.len() == 0 {
        Seq::empty()
    } else if ps.last().len() == 0 {
        non_empty(ps.drop_last())
    } else {
        non_empty(ps.drop_last()).push(ps.last())
    }
}

/// The directories searched besides the inherited ones: fixed system
/// locations, then tool directories under the home directory when known.
pub open spec fn extra_dirs(home: Option<Seq<char>>) -> Seq<Seq<char>> {
    seq![
        "/opt/homebrew/bin"@,
        "/usr/local/bin"@,
        "/usr/bin"@,
        "/bin"@,
        "/usr/sbin"@,
        "/sbin"@,
    ] + match home {
        Some(h) => seq![h + "/.local/bin"@, h + "/.cargo/bin"@, h + "/.bun/bin"@],
        None => Seq::<Seq<char>>::empty(),
    }
}

/// `ps` followed by each of `xs` not yet present, in order.
pub open spec fn add_missing(ps: Seq<Seq<char>>, xs: Seq<Seq<char>>) -> Seq<Seq<char>>
    decreases xs.len(),
{
    if xs.len() == 0 {
        ps
    } else {
        let m = add_missing(ps, xs.drop_last());
        if m.contains(xs.last()) {
            m
        } else {
            m.push(xs.last())
        }
    }
}

/// The texts of `ps` joined by `:`.
pub open spec fn join_colon(ps: Seq<Seq<char>>) -> Seq<char>
    decreases ps.len(),
{
    if ps.len() == 0 {
        Seq::empty()
    } else if ps.len() == 1 {
        ps[0]
    } else {
        join_colon(ps.drop_last()) + ":"@ + ps.last()
    }
}

/// The search path for the default command: the inherited entries, empty
/// ones dropped, then each extra directory not already among them.
pub open spec fn augmented_path(path_var: Seq<char>, home: Option<Seq<char>>) -> Seq<char> {
    join_colon(add_missing(non_empty(pieces(path_var, ':')), extra_dirs(home)))
}

fn contains_text(v: &Vec<String>, s: &String) -> (r: bool)
    ensures
        r == views(v@).contains(s@),
{
    let mut i: usize = 0;
    while i < v.len()
        invariant
            i <= v@.len(),
            forall|j: int| 0 <= j < i ==> #[trigger] v@[j]@ != s@,
        decreases v.len() - i,
    {
        if v[i] == *s {
            assert(views(v@)[i as int] == s@);
            return true;
        }
        i = i + 1;
    }
    assert forall|j: int| 0 <= j < views(v@).len() implies views(v@)[j] != s@ by {
        assert(views(v@)[j] == v@[j]@);
    }
    false
}

fn extra_dirs_of(home: &Option<String>) -> (r: Vec<String>)
    ensures
        views(r@) == extra_dirs(opt_view(*home)),
{
    let mut r: Vec<String> = Vec::new();
    r.push(owned("/opt/homebrew/bin"));
    r.push(owned("/usr/local/bin"));
    r.push(owned("/usr/bin"));
    r.push(owned("/bin"));
    r.push(owned("/usr/sbin"));
    r.push(owned("/sbin"));
    match home {
        Some(h) => {
            r.push(joined(h.as_str(), "/.local/bin"));
            r.push(joined(h.as_str(), "/.cargo/bin"));
            r.push(joined(h.as_str(), "/.bun/bin"));
        },
        None => {},
    }
    assert(views(r@) =~= extra_dirs(opt_view(*home)));
    r
}

/// The value of the search-path variable for the default command, from the
/// inherited value and the home directory, if known.
pub fn search_path(path_var: &str, home: Option<String>) -> (r: String)
    ensures
        r@ == augmented_path(path_var@, opt_view(home)),
{
    let all = split_on(path_var, ':');
    let ghost av = views(all@);
    let mut paths: Vec<String> = Vec::new();
    let mut i: usize = 0;
    assert(av.subrange(0, 0) =~= Seq::<Seq<char>>::empty());
    assert(views(paths@) =~= Seq::<Seq<char>>::empty());
    while i < all.len()
        invariant
            i <= all@.len(),
            av == views(all@),
            views(paths@) == non_empty(av.subrange(0, i as int)),
        decreases all.len() - i,
    {
        assert(av.subrange(0, i + 1).drop_last() =~= av.subrange(0, i as int));
        assert(av.subrange(0, i + 1).last() == all@[i as int]@);
        let ghost before = views(paths@);
        if all[i].unicode_len() != 0 {
            paths.push(all[i].clone());
            assert(views(paths@) =~= before.push(all@[i as int]@));
        }
        i = i + 1;
    }
    assert(av.subrange(0, all@.len() as int) =~= av);
    let ghost base = views(paths@);
    let extras = extra_dirs_of(&home);
    let ghost xv = views(extras@);
    let mut k: usize = 0;
    assert(xv.subrange(0, 0) =~= Seq::<Seq<char>>::empty());
    while k < extras.len()
        invariant
            k <= extras@.len(),
            xv == views(extras@),
            views(paths@) == add_missing(base, xv.subrange(0, k as int)),
        decreases extras.len() - k,
    {
        assert(xv.subrange(0, k + 1).drop_last() =~= xv.subrange(0, k as int));
        assert(xv.subrange(0, k + 1).last() == extras@[k as int]@);
        let ghost before = views(paths@);
        if !contains_text(&paths, &extras[k]) {
            paths.push(extras[k].clone());
            assert(views(paths@) =~= before.push(extras@[k as int]@));
        }
        k = k + 1;
    }
    assert(xv.subrange(0, extras@.len() as int) =~= xv);
    let ghost pv = views(paths@);
    let mut out = String::new();
    let mut j: usize = 0;
    assert(pv.subrange(0, 0) =~= Seq::<Seq<char>>::empty());
    while j < paths.len()
        invariant
            j <= paths@.len(),
            pv == views(paths@),
            out@ == join_colon(pv.subrange(0, j as int)),
        decreases paths.len() - j,
    {
        assert(pv.subrange(0, j + 1).drop_last() =~= pv.subrange(0, j as int));
        assert(pv.subrange(0, j + 1).last() == paths@[j as int]@);
        if j == 0 {
            out = paths[0].clone();
            assert(out@ =~= join_colon(pv.subrange(0, 1)));
        } else {
            out.append(":");
            out.append(paths[j].as_str());
        }
        j = j + 1;
    }
    assert(pv.subrange(0, paths@.len() as int) =~= pv);
    out
}

} // verus!

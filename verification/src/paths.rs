//! Path text as the transfer sees it: the name of a file or directory, the
//! joining of a name onto a directory, and the names that the entries of a
//! collection get. Paths are Unix paths, as on Android, iOS, Linux and
//! macOS: `/` is the only separator.

use vstd::prelude::*;
use vstd::string::*;

verus! {

/// The characters after the last `/` of `p` (all of `p` where it has none).
pub open spec fn last_segment(p: Seq<char>) -> Seq<char>
    decreases p.len(),
{
    if p.len() == 0 || p.last() == '/' {
        Seq::<char>::empty()
    } else {
        last_segment(p.drop_last()).push(p.last())
    }
}

/// The final component of a path as `std::path::Path::file_name` gives it:
/// separators at the end and `.` components are passed over; `None` where no
/// component is left or the last one is `..`.
pub open spec fn final_name(p: Seq<char>) -> Option<Seq<char>>
    decreases p.len(),
{
    if p.len() == 0 {
        None
    } else if p.last() == '/' {
        final_name(p.drop_last())
    } else {
        let seg = last_segment(p);
        if seg == seq!['.'] {
            final_name(p.subrange(0, p.len() - seg.len()))
        } else if seg == seq!['.', '.'] {
            None
        } else {
            Some(seg)
        }
    }
}

/// The name shown for a path: its final component, or `unknown`.
pub open spec fn display_name_of(p: Seq<char>) -> Seq<char> {
    match final_name(p) {
        Some(n) => n,
        None => "unknown"@,
    }
}

/// `base` joined with `name` as `std::path::Path::join` does it: an absolute
/// `name` replaces `base`; otherwise a `/` goes between them unless `base` is
/// empty or already ends in one.
pub open spec fn path_join(base: Seq<char>, name: Seq<char>) -> Seq<char> {
    if name.len() > 0 && name[0] == '/' {
        name
    } else if base.len() > 0 && base.last() != '/' {
        base + seq!['/'] + name
    } else {
        base + name
    }
}

/// A name that `path_join` appends as one whole component: not empty, not
/// `.` or `..`, with no `/` in it.
pub open spec fn is_plain_name(name: Seq<char>) -> bool {
    &&& name.len() > 0
    &&& !name.contains('/')
    &&& name != seq!['.']
    &&& name != seq!['.', '.']
}

/// What `std::path::Path::strip_prefix` gives for `path` and `base`, read as
/// text: `None` where `base` is not a leading run of whole components of
/// `path`.
pub uninterp spec fn std_strip_prefix(path: Seq<char>, base: Seq<char>) -> Option<Seq<char>>;

/// The name a file found under a directory gets: the file's path relative to
/// the directory's canonical path, or the file's whole path where it does not
/// lie under it.
pub open spec fn relative_name(file_path: Seq<char>, base: Seq<char>) -> Seq<char> {
    match std_strip_prefix(file_path, base) {
        Some(rel) => rel,
        None => file_path,
    }
}

proof fn lemma_last_segment_of_take(p: Seq<char>, start: int, end: int)
    requires
        0 <= start <= end <= p.len(),
        start == 0 || p[start - 1] == '/',
        forall|i: int| start <= i < end ==> p[i] != '/',
    ensures
        last_segment(p.take(end)) == p.subrange(start, end),
    decreases end - start,
{
    let q = p.take(end);
    if end == start {
        if end > 0 {
            assert(q.last() == '/');
        }
        assert(p.subrange(start, end) =~= Seq::<char>::empty());
    } else {
        assert(q.last() == p[end - 1]);
        assert(q.drop_last() =~= p.take(end - 1));
        lemma_last_segment_of_take(p, start, end - 1);
        assert(p.subrange(start, end - 1).push(p[end - 1]) =~= p.subrange(start, end));
    }
}

proof fn lemma_last_segment_len(p: Seq<char>)
    ensures
        last_segment(p).len() <= p.len(),
        p.len() > 0 && p.last() != '/' ==> last_segment(p).len() > 0,
    decreases p.len(),
{
    if p.len() > 0 && p.last() != '/' {
        lemma_last_segment_len(p.drop_last());
    }
}

/// The name of the file or directory at `path`: its final component, or
/// `unknown` where it has none.
pub fn get_name(path: &str) -> (name: String)
    ensures
        name@ == display_name_of(path@),
{
    let n = path.unicode_len();
    let mut end: usize = n;
    assert(path@.take(n as int) =~= path@);
    loop
        invariant
            end <= n,
            n == path@.len(),
            final_name(path@) == final_name(path@.take(end as int)),
        decreases end,
    {
        let ghost end0 = end;
        while end > 0 && path.get_char(end - 1) == '/'
            invariant
                end <= end0,
                end <= n,
                n == path@.len(),
                final_name(path@) == final_name(path@.take(end as int)),
            decreases end,
        {
            proof {
                let q = path@.take(end as int);
                assert(q.last() == '/');
                assert(q.drop_last() =~= path@.take(end - 1));
            }
            end = end - 1;
        }
        if end == 0 {
            assert(path@.take(0) =~= Seq::<char>::empty());
            return String::from_str("unknown");
        }
        let mut start: usize = end;
        while start > 0 && path.get_char(start - 1) != '/'
            invariant
                start <= end <= n,
                n == path@.len(),
                forall|i: int| start <= i < end ==> path@[i] != '/',
            decreases start,
        {
            start = start - 1;
        }
        let ghost q = path@.take(end as int);
        proof {
            lemma_last_segment_of_take(path@, start as int, end as int);
            assert(q.last() == path@[end - 1]);
            assert(q.last() != '/');
        }
        let len = end - start;
        if len == 1 && path.get_char(start) == '.' {
            proof {
                assert(path@.subrange(start as int, end as int) =~= seq!['.']);
                assert(q.subrange(0, q.len() - 1) =~= path@.take(start as int));
            }
            end = start;
        } else if len == 2 && path.get_char(start) == '.' && path.get_char(start + 1) == '.' {
            proof {
                assert(path@.subrange(start as int, end as int) =~= seq!['.', '.']);
            }
            return String::from_str("unknown");
        } else {
            let ghost seg = path@.subrange(start as int, end as int);
            proof {
                if seg == seq!['.'] {
                    assert(seg[0] == path@[start as int]);
                }
                if seg == seq!['.', '.'] {
                    assert(seg[0] == path@[start as int]);
                    assert(seg[1] == path@[start + 1]);
                }
            }
            return String::from_str(path.substring_char(start, end));
        }
    }
}

/// A plain name joined onto any directory is what the name of the joined path
/// gives back: `get_name(join_path(dir, name)) == name`.
pub proof fn law_name_of_joined(dir: Seq<char>, name: Seq<char>)
    requires
        is_plain_name(name),
    ensures
        final_name(path_join(dir, name)) == Some(name),
        display_name_of(path_join(dir, name)) == name,
{
    let j = path_join(dir, name);
    assert(name[0] != '/') by {
        if name[0] == '/' {
            assert(name.contains('/'));
        }
    }
    let a = if dir.len() > 0 && dir.last() != '/' { dir + seq!['/'] } else { dir };
    assert(j =~= a + name);
    assert(a.len() == 0 || a.last() == '/');
    assert forall|i: int| a.len() <= i < j.len() implies j[i] != '/' by {
        assert(j[i] == name[i - a.len()]);
        if j[i] == '/' {
            assert(name.contains('/'));
        }
    }
    if a.len() > 0 {
        assert(j[a.len() - 1] == a.last());
    }
    lemma_last_segment_of_take(j, a.len() as int, j.len() as int);
    assert(j.take(j.len() as int) =~= j);
    assert(j.subrange(a.len() as int, j.len() as int) =~= name);
    assert(j.last() == name.last());
    assert(name.last() != '/') by {
        if name.last() == '/' {
            assert(name.contains('/'));
        }
    }
}

proof fn lemma_last_segment_no_separator(p: Seq<char>)
    ensures
        !last_segment(p).contains('/'),
    decreases p.len(),
{
    if p.len() > 0 && p.last() != '/' {
        lemma_last_segment_no_separator(p.drop_last());
        let s = last_segment(p.drop_last());
        assert(last_segment(p) == s.push(p.last()));
        if s.push(p.last()).contains('/') {
            let i = choose|i: int| 0 <= i < s.push(p.last()).len() && s.push(p.last())[i] == '/';
            if i < s.len() {
                assert(s[i] == '/');
                assert(s.contains('/'));
            }
        }
    }
}

proof fn lemma_final_name_plain(p: Seq<char>)
    ensures
        final_name(p) matches Some(n) ==> is_plain_name(n),
    decreases p.len(),
{
    if p.len() > 0 {
        if p.last() == '/' {
            lemma_final_name_plain(p.drop_last());
        } else {
            let seg = last_segment(p);
            lemma_last_segment_len(p);
            lemma_last_segment_no_separator(p);
            if seg == seq!['.'] {
                lemma_final_name_plain(p.subrange(0, p.len() - seg.len()));
            }
        }
    }
}

/// The name of any path is one plain component: never empty, never `.` or
/// `..`, with no `/` in it (`unknown` included).
pub proof fn law_display_name_is_plain(p: Seq<char>)
    ensures
        is_plain_name(display_name_of(p)),
{
    lemma_final_name_plain(p);
    reveal_strlit("unknown");
    if final_name(p) is None {
        let u = "unknown"@;
        assert(u.len() == 7);
        assert(!u.contains('/')) by {
            if u.contains('/') {
                let i = choose|i: int| 0 <= i < u.len() && u[i] == '/';
                assert(u[i] != '/');
            }
        }
        assert(u != seq!['.']) by {
            assert(seq!['.'].len() == 1);
        }
        assert(u != seq!['.', '.']) by {
            assert(seq!['.', '.'].len() == 2);
        }
    }
}

/// `std::path::Path::strip_prefix`, with the remainder handed out as text
/// through `to_string_lossy` (lossless here: the input is UTF-8). The result
/// is named, not described: the exact text kept after the matched components
/// is the standard library's.
#[verifier::external_body]
fn strip_path_prefix(path: &str, base: &str) -> (r: Option<String>)
    ensures
        match r {
            Some(rel) => std_strip_prefix(path@, base@) == Some(rel@),
            None => std_strip_prefix(path@, base@) is None,
        },
{
    std::path::Path::new(path).strip_prefix(base).ok().map(|rel| rel.to_string_lossy().to_string())
}

/// The collection name of a file found while walking a directory whose
/// canonical path is `base`: the file's path relative to `base`, or the
/// file's whole path where it does not lie under `base`.
pub fn relative_entry_name(file_path: &str, base: &str) -> (name: String)
    ensures
        name@ == relative_name(file_path@, base@),
{
    match strip_path_prefix(file_path, base) {
        Some(rel) => rel,
        None => String::from_str(file_path),
    }
}

/// The collection name of a file found in a selected folder: the folder's
/// name, `/`, and the file's path relative to the folder.
pub fn folder_entry_name(folder_name: &str, relative: &str) -> (name: String)
    ensures
        name@ == folder_name@ + seq!['/'] + relative@,
{
    proof {
        reveal_strlit("/");
    }
    String::from_str(folder_name).concat("/").concat(relative)
}

/// `base` joined with `name` as `std::path::Path::join` joins them.
pub fn join_path(base: &str, name: &str) -> (joined: String)
    ensures
        joined@ == path_join(base@, name@),
{
    let name_len = name.unicode_len();
    if name_len > 0 && name.get_char(0) == '/' {
        return String::from_str(name);
    }
    proof {
        reveal_strlit("/");
    }
    let base_len = base.unicode_len();
    let joined = if base_len > 0 && base.get_char(base_len - 1) != '/' {
        String::from_str(base).concat("/").concat(name)
    } else {
        String::from_str(base).concat(name)
    };
    joined
}

} // verus!

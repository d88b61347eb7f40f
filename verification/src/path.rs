//! The file name of a path, for paths whose components are parted by `/`.

use vstd::prelude::*;
use crate::text::option_view;

verus! {

/// A path without what may follow its last component: separators, and
/// components that are a single `.`.
pub open spec fn trim_tail(path: Seq<char>) -> Seq<char>
    decreases path.len(),
{
    if path.len() > 0 && path.last() == '/' {
        trim_tail(path.drop_last())
    } else if path.len() >= 2 && path.last() == '.' && path[path.len() - 2] == '/' {
        trim_tail(path.drop_last())
    } else {
        path
    }
}

/// Where the last component of a path starts: behind its last separator, or
/// at the front where it holds none.
pub open spec fn segment_start(path: Seq<char>) -> nat
    decreases path.len(),
{
    if path.len() == 0 || path.last() == '/' {
        path.len()
    } else {
        segment_start(path.drop_last())
    }
}

/// What stands behind the last separator of a path.
pub open spec fn last_segment(path: Seq<char>) -> Seq<char> {
    path.subrange(segment_start(path) as int, path.len() as int)
}

/// The file name of a path: its last component, where separators and `.`
/// components behind it do not count. A path has no file name where nothing
/// is left (it is empty or the root), or where what is left is `.` or `..`.
pub open spec fn file_name_of(path: Seq<char>) -> Option<Seq<char>> {
    let name = last_segment(trim_tail(path));
    if name.len() == 0 || name == seq!['.'] || name == seq!['.', '.'] {
        None
    } else {
        Some(name)
    }
}

/// The last component starts where a scan from the back meets a separator
/// or the front of the path.
pub proof fn lemma_segment_start_is(path: Seq<char>, start: int)
    requires
        0 <= start <= path.len(),
        forall|i: int| start <= i < path.len() ==> #[trigger] path[i] != '/',
        start == 0 || path[start - 1] == '/',
    ensures
        segment_start(path) == start,
    decreases path.len(),
{
    if start < path.len() {
        let shorter = path.drop_last();
        assert(path.last() == path[path.len() - 1]);
        assert forall|i: int| start <= i < shorter.len() implies #[trigger] shorter[i] != '/' by {
            assert(shorter[i] == path[i]);
        }
        lemma_segment_start_is(shorter, start);
    }
}

/// A file name is not empty, holds no separator, and is neither `.` nor
/// `..`.
pub proof fn lemma_file_name_is_a_component(path: Seq<char>)
    ensures
        file_name_of(path) matches Some(name) ==> {
            &&& name.len() > 0
            &&& name != seq!['.']
            &&& name != seq!['.', '.']
            &&& forall|i: int| 0 <= i < name.len() ==> #[trigger] name[i] != '/'
        },
{
    lemma_segment_holds_no_separator(trim_tail(path));
}

proof fn lemma_segment_holds_no_separator(path: Seq<char>)
    ensures
        segment_start(path) <= path.len(),
        forall|i: int| segment_start(path) <= i < path.len() ==> #[trigger] path[i] != '/',
    decreases path.len(),
{
    if path.len() > 0 && path.last() != '/' {
        let shorter = path.drop_last();
        lemma_segment_holds_no_separator(shorter);
        assert forall|i: int| segment_start(path) <= i < path.len() implies #[trigger] path[i]
            != '/' by {
            if i < shorter.len() {
                assert(shorter[i] == path[i]);
            }
        }
    }
}

/// Takes the file name of a path.
pub fn file_name(path: &str) -> (name: Option<String>)
    ensures
        option_view(name) == file_name_of(path@),
{
    let n = path.unicode_len();
    let mut end: usize = n;
    assert(path@.subrange(0, n as int) =~= path@);
    loop
        invariant
            end <= n,
            n == path@.len(),
            trim_tail(path@.subrange(0, end as int)) == trim_tail(path@),
        ensures
            end <= n,
            path@.subrange(0, end as int) == trim_tail(path@),
        decreases end,
    {
        let ghost kept = path@.subrange(0, end as int);
        if end > 0 && path.get_char(end - 1) == '/' {
            assert(kept.drop_last() =~= path@.subrange(0, end - 1));
            end -= 1;
        } else if end >= 2 && path.get_char(end - 1) == '.' && path.get_char(end - 2) == '/' {
            assert(kept.drop_last() =~= path@.subrange(0, end - 1));
            end -= 1;
        } else {
            break ;
        }
    }
    let ghost kept = path@.subrange(0, end as int);
    let mut start: usize = end;
    loop
        invariant
            start <= end <= n,
            n == path@.len(),
            forall|i: int| start <= i < end ==> #[trigger] path@[i] != '/',
        ensures
            start <= end,
            start == 0 || path@[start - 1] == '/',
        decreases start,
    {
        if start == 0 {
            break ;
        }
        if path.get_char(start - 1) == '/' {
            break ;
        }
        start -= 1;
    }
    proof {
        assert forall|i: int| start <= i < kept.len() implies #[trigger] kept[i] != '/' by {
            assert(kept[i] == path@[i]);
        }
        lemma_segment_start_is(kept, start as int);
        assert(last_segment(kept) =~= path@.subrange(start as int, end as int));
    }
    let ghost name = path@.subrange(start as int, end as int);
    let len = end - start;
    if len == 0 {
        return None;
    }
    assert(name[0] == path@[start as int]);
    if len == 1 && path.get_char(start) == '.' {
        assert(name =~= seq!['.']);
        return None;
    }
    if len == 2 && path.get_char(start) == '.' && path.get_char(start + 1) == '.' {
        assert(name[1] == path@[start + 1]);
        assert(name =~= seq!['.', '.']);
        return None;
    }
    proof {
        if name == seq!['.'] {
            assert(seq!['.'].len() == 1);
            assert(seq!['.'][0] == '.');
        }
        if name == seq!['.', '.'] {
            assert(seq!['.', '.'].len() == 2);
            assert(seq!['.', '.'][0] == '.');
            assert(seq!['.', '.'][1] == '.');
            assert(name[1] == path@[start + 1]);
        }
    }
    Some(path.substring_char(start, end).to_owned())
}

} // verus!

use vstd::prelude::*;
use vstd::string::StrSliceExecFns;

verus! {

/// Separator between the segments of a path.
pub const PATH_SEPARATOR: char = '/';

/// Splits `s` at separators, left to right: the non-empty segments
/// completed so far, and the segment in progress.
pub open spec fn scan_segments(s: Seq<char>) -> (Seq<Seq<char>>, Seq<char>)
    decreases s.len(),
{
    if s.len() == 0 {
        (Seq::empty(), Seq::empty())
    } else {
        let (done, cur) = scan_segments(s.drop_last());
        if s.last() == PATH_SEPARATOR {
            if cur.len() > 0 {
                (done.push(cur), Seq::empty())
            } else {
                (done, Seq::empty())
            }
        } else {
            (done, cur.push(s.last()))
        }
    }
}

/// The non-empty segments of `s` between separators, in order.
pub open spec fn segments(s: Seq<char>) -> Seq<Seq<char>> {
    let (done, cur) = scan_segments(s);
    if cur.len() > 0 {
        done.push(cur)
    } else {
        done
    }
}

/// The channel that a path of the form `/channels/<name>` names: there are
/// exactly two non-empty segments and the first is `channels`.
pub open spec fn channel_of(path: Seq<char>) -> Option<Seq<char>> {
    let segs = segments(path);
    if segs.len() == 2 && segs[0] == "channels"@ {
        Some(segs[1])
    } else {
        None
    }
}

/// A path that does not name a channel.
#[derive(Copy, Clone, Debug, PartialEq, Eq, Structural)]
pub enum PathError {
    InvalidPath,
}

/// The characters of `s`, in order.
pub fn chars_of(s: &str) -> (r: Vec<char>)
    ensures
        r@ == s@,
{
    let mut r: Vec<char> = Vec::new();
    for c in it: s.chars()
        invariant
            it.seq() == s@,
            r@ == s@.take(it.index()),
    {
        r.push(c);
    }
    r
}

/// Whether `v[start..end]` holds exactly the characters of `w`.
pub fn range_equals(v: &Vec<char>, start: usize, end: usize, w: &Vec<char>) -> (r: bool)
    requires
        start <= end <= v@.len(),
    ensures
        r == (v@.subrange(start as int, end as int) == w@),
{
    if end - start != w.len() {
        assert(v@.subrange(start as int, end as int).len() != w@.len());
        return false;
    }
    let mut i: usize = 0;
    while i < w.len()
        invariant
            start <= end <= v@.len(),
            end - start == w@.len(),
            i <= w@.len(),
            v@.subrange(start as int, start + i) == w@.take(i as int),
        decreases w@.len() - i,
    {
        if v[start + i] != w[i] {
            assert(v@.subrange(start as int, end as int)[i as int] != w@[i as int]);
            return false;
        }
        assert(v@.subrange(start as int, start + i + 1) =~= w@.take(i + 1));
        i = i + 1;
    }
    assert(w@.take(i as int) =~= w@);
    true
}

/// The channel name in a path of the form `/channels/<name>`. Empty
/// segments are ignored; any other shape is an invalid path.
pub fn parse_channel(path: &str) -> (r: Result<String, PathError>)
    ensures
        match channel_of(path@) {
            Some(name) => r matches Ok(s) && s@ == name,
            None => r == Err::<String, PathError>(PathError::InvalidPath),
        },
{
    let v = chars_of(path);
    let n = v.len();
    // Completed segments, where the first two of them lie, and where the
    // segment in progress starts.
    let mut count: usize = 0;
    let mut first: (usize, usize) = (0, 0);
    let mut second: (usize, usize) = (0, 0);
    let mut cur_start: usize = 0;
    let mut i: usize = 0;
    while i < n
        invariant
            n == v@.len(),
            i <= n,
            cur_start <= i,
            count <= cur_start,
            scan_segments(v@.take(i as int)).0.len() == count,
            scan_segments(v@.take(i as int)).1 == v@.subrange(cur_start as int, i as int),
            count >= 1 ==> first.0 <= first.1 <= n && scan_segments(v@.take(i as int)).0[0]
                == v@.subrange(first.0 as int, first.1 as int),
            count >= 2 ==> second.0 <= second.1 <= n && scan_segments(v@.take(i as int)).0[1]
                == v@.subrange(second.0 as int, second.1 as int),
        decreases n - i,
    {
        let ghost prev = v@.take(i as int);
        assert(v@.take(i + 1).drop_last() =~= prev);
        assert(v@.take(i + 1).last() == v@[i as int]);
        if v[i] == PATH_SEPARATOR {
            if cur_start < i {
                if count == 0 {
                    first = (cur_start, i);
                } else if count == 1 {
                    second = (cur_start, i);
                }
                count = count + 1;
            }
            cur_start = i + 1;
            assert(v@.subrange(cur_start as int, i + 1) =~= Seq::<char>::empty());
        } else {
            assert(v@.subrange(cur_start as int, i + 1) =~= v@.subrange(
                cur_start as int,
                i as int,
            ).push(v@[i as int]));
        }
        i = i + 1;
    }
    assert(v@.take(n as int) =~= v@);
    let total: usize = if cur_start < n {
        if count == 0 {
            first = (cur_start, n);
        } else if count == 1 {
            second = (cur_start, n);
        }
        count + 1
    } else {
        count
    };
    let ghost segs = segments(path@);
    assert(segs.len() == total);
    if total != 2 {
        return Err(PathError::InvalidPath);
    }
    assert(segs[0] == v@.subrange(first.0 as int, first.1 as int));
    assert(segs[1] == v@.subrange(second.0 as int, second.1 as int));
    let word = chars_of("channels");
    if !range_equals(&v, first.0, first.1, &word) {
        return Err(PathError::InvalidPath);
    }
    let name = path.substring_char(second.0, second.1).to_owned();
    Ok(name)
}

} // verus!

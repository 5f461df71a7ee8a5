use vstd::prelude::*;

use crate::text::{chars_of, push_char};

verus! {

/// Splitting a path on `/`: the segments completed so far and the segment still open.
pub open spec fn split_state(s: Seq<char>) -> (Seq<Seq<char>>, Seq<char>)
    decreases s.len(),
{
    if s.len() == 0 {
        (Seq::empty(), Seq::empty())
    } else {
        let (done, cur) = split_state(s.drop_last());
        if s.last() == '/' {
            if cur.len() == 0 {
                (done, Seq::empty())
            } else {
                (done.push(cur), Seq::empty())
            }
        } else {
            (done, cur.push(s.last()))
        }
    }
}

/// The non-empty `/`-separated segments of a path, in order.
pub open spec fn segments(s: Seq<char>) -> Seq<Seq<char>> {
    let (done, cur) = split_state(s);
    if cur.len() == 0 {
        done
    } else {
        done.push(cur)
    }
}

/// Segments joined with `/` between them.
pub open spec fn join(segs: Seq<Seq<char>>) -> Seq<char>
    decreases segs.len(),
{
    if segs.len() == 0 {
        Seq::empty()
    } else if segs.len() == 1 {
        segs[0]
    } else {
        join(segs.drop_last()) + seq!['/'] + segs.last()
    }
}

/// The views of a sequence of strings.
pub open spec fn views(v: Seq<String>) -> Seq<Seq<char>> {
    v.map_values(|x: String| x@)
}

/// The segments of a path's directory part: all of its segments but the last.
pub open spec fn parent_segs(path: Seq<char>) -> Seq<Seq<char>> {
    let segs = segments(path);
    if segs.len() == 0 {
        segs
    } else {
        segs.drop_last()
    }
}

/// The directory part of a path.
pub open spec fn parent_of(path: Seq<char>) -> Seq<char> {
    join(parent_segs(path))
}

/// The segments from the first one equal to `name` onward; all of them when none is.
pub open spec fn from_first(segs: Seq<Seq<char>>, name: Seq<char>) -> Seq<Seq<char>> {
    if exists|i: int| 0 <= i < segs.len() && segs[i] == name {
        let i = choose|i: int|
            0 <= i < segs.len() && segs[i] == name && forall|j: int| 0 <= j < i ==> segs[j] != name;
        segs.skip(i)
    } else {
        segs
    }
}

/// A directory path rooted at the first segment equal to `name`.
pub open spec fn stripped_dir(dir: Seq<char>, name: Seq<char>) -> Seq<char> {
    join(from_first(segments(dir), name))
}

/// Splits a path into its non-empty `/`-separated segments.
pub fn split_path(s: &str) -> (r: Vec<String>)
    ensures
        views(r@) == segments(s@),
{
    let cs = chars_of(s);
    let mut done: Vec<String> = Vec::new();
    let mut cur = String::new();
    let mut i: usize = 0;
    while i < cs.len()
        invariant
            i <= cs.len(),
            cs@ == s@,
            (views(done@), cur@) == split_state(cs@.take(i as int)),
        decreases cs.len() - i,
    {
        let c = cs[i];
        assert(cs@.take(i + 1).drop_last() == cs@.take(i as int));
        if c == '/' {
            if !cur.as_str().is_empty() {
                let seg = cur;
                cur = String::new();
                done.push(seg);
                assert(views(done@) == views(done@.drop_last()).push(seg@));
            }
        } else {
            push_char(&mut cur, c);
        }
        i = i + 1;
    }
    assert(cs@.take(i as int) == s@);
    if !cur.as_str().is_empty() {
        done.push(cur);
        assert(views(done@) == views(done@.drop_last()).push(cur@));
    }
    done
}


/// `s` followed by the characters of `t`.
pub fn append_chars(s: &mut String, t: &str)
    ensures
        final(s)@ == old(s)@ + t@,
{
    let cs = chars_of(t);
    let mut i: usize = 0;
    while i < cs.len()
        invariant
            i <= cs.len(),
            cs@ == t@,
            s@ == old(s)@ + cs@.take(i as int),
        decreases cs.len() - i,
    {
        push_char(s, cs[i]);
        assert(cs@.take(i + 1) == cs@.take(i as int).push(cs@[i as int]));
        i = i + 1;
    }
    assert(cs@.take(i as int) == t@);
}

/// Joins `segs[from..]` with `/` between them.
pub fn join_from(segs: &Vec<String>, from: usize) -> (r: String)
    requires
        from <= segs.len(),
    ensures
        r@ == join(views(segs@).skip(from as int)),
{
    let ghost vs = views(segs@).skip(from as int);
    let mut s = String::new();
    let mut i: usize = from;
    while i < segs.len()
        invariant
            from <= i <= segs.len(),
            vs == views(segs@).skip(from as int),
            s@ == join(vs.take(i - from)),
        decreases segs.len() - i,
    {
        assert(vs.take(i + 1 - from).drop_last() == vs.take(i - from));
        assert(vs[i - from] == segs@[i as int]@);
        if i > from {
            push_char(&mut s, '/');
        }
        append_chars(&mut s, segs[i].as_str());
        i = i + 1;
    }
    assert(vs.take(i - from) == vs);
    s
}

/// Index of the first element of `segs` equal to `name`, if any.
pub fn first_match(segs: &Vec<String>, name: &str) -> (r: Option<usize>)
    ensures
        match r {
            Some(i) => i < segs.len() && segs@[i as int]@ == name@ && forall|j: int|
                0 <= j < i ==> segs@[j]@ != name@,
            None => forall|j: int| 0 <= j < segs.len() ==> segs@[j]@ != name@,
        },
{
    let wanted = name.to_owned();
    let mut i: usize = 0;
    while i < segs.len()
        invariant
            i <= segs.len(),
            wanted@ == name@,
            forall|j: int| 0 <= j < i ==> segs@[j]@ != name@,
        decreases segs.len() - i,
    {
        if segs[i] == wanted {
            return Some(i);
        }
        i = i + 1;
    }
    None
}

/// The segments `segs` joined from the first one equal to `name`, or all of them
/// when none is.
pub fn rooted_at(segs: &Vec<String>, name: &str) -> (r: String)
    ensures
        r@ == join(from_first(views(segs@), name@)),
{
    let ghost vs = views(segs@);
    match first_match(segs, name) {
        Some(i) => {
            assert(vs[i as int] == name@);
            assert(forall|j: int| 0 <= j < i ==> vs[j] != name@);
            let r = join_from(segs, i);
            proof {
                let k = choose|k: int|
                    0 <= k < vs.len() && vs[k] == name@ && forall|j: int|
                        0 <= j < k ==> vs[j] != name@;
                assert(k == i as int) by {
                    if k < i {
                        assert(vs[k] != name@);
                    } else if k > i {
                        assert(vs[i as int] != name@);
                    }
                }
            }
            r
        },
        None => {
            assert(forall|j: int| 0 <= j < vs.len() ==> vs[j] != name@);
            assert(vs.skip(0) == vs);
            join_from(segs, 0)
        },
    }
}

/// The directory path `dir_path` re-rooted at its first segment equal to `dir_name`.
/// When no segment equals `dir_name`, the whole directory path is kept.
pub fn strip_dir_path(dir_path: &str, dir_name: &str) -> (r: String)
    ensures
        r@ == stripped_dir(dir_path@, dir_name@),
{
    let segs = split_path(dir_path);
    rooted_at(&segs, dir_name)
}

/// The segments of a path without its last one.
pub fn parent_segments(path: &str) -> (r: Vec<String>)
    ensures
        views(r@) == parent_segs(path@),
{
    let mut segs = split_path(path);
    if segs.len() > 0 {
        let ghost before = segs@;
        segs.pop();
        assert(views(segs@) == views(before).drop_last());
    }
    segs
}

/// The directory part of a path: all of its segments but the last, joined with `/`.
pub fn parent_dir(path: &str) -> (r: String)
    ensures
        r@ == parent_of(path@),
{
    let segs = parent_segments(path);
    assert(views(segs@).skip(0) == views(segs@));
    join_from(&segs, 0)
}

/// What follows the last `/` of `s` (all of `s` when it has none).
pub open spec fn last_piece(s: Seq<char>) -> Seq<char>
    decreases s.len(),
{
    if s.len() == 0 {
        Seq::empty()
    } else if s.last() == '/' {
        Seq::empty()
    } else {
        last_piece(s.drop_last()).push(s.last())
    }
}

/// What follows the last `/` of `s` (all of `s` when it has none).
pub fn after_last_slash(s: &str) -> (r: String)
    ensures
        r@ == last_piece(s@),
{
    let cs = chars_of(s);
    let mut cur = String::new();
    let mut i: usize = 0;
    while i < cs.len()
        invariant
            i <= cs.len(),
            cs@ == s@,
            cur@ == last_piece(cs@.take(i as int)),
        decreases cs.len() - i,
    {
        assert(cs@.take(i + 1).drop_last() == cs@.take(i as int));
        if cs[i] == '/' {
            cur = String::new();
        } else {
            push_char(&mut cur, cs[i]);
        }
        i = i + 1;
    }
    assert(cs@.take(i as int) == s@);
    cur
}

/// The path of a file named `name` inside directory `dir` (`name` alone when `dir` is empty).
pub open spec fn file_in(dir: Seq<char>, name: Seq<char>) -> Seq<char> {
    if dir.len() == 0 {
        name
    } else {
        dir + seq!['/'] + name
    }
}

/// The path of a file named `name` inside directory `dir`.
pub fn file_path_in(dir: &str, name: &str) -> (r: String)
    ensures
        r@ == file_in(dir@, name@),
{
    let mut s = String::new();
    if !dir.is_empty() {
        append_chars(&mut s, dir);
        push_char(&mut s, '/');
    }
    append_chars(&mut s, name);
    s
}

/// Every segment of a path is non-empty.
pub proof fn lemma_split_state_nonempty(s: Seq<char>)
    ensures
        forall|i: int| 0 <= i < split_state(s).0.len() ==> split_state(s).0[i].len() > 0,
    decreases s.len(),
{
    if s.len() > 0 {
        lemma_split_state_nonempty(s.drop_last());
        let (done, cur) = split_state(s.drop_last());
        assert(forall|i: int| 0 <= i < done.len() ==> done[i].len() > 0);
        if s.last() == '/' && cur.len() > 0 {
            assert(split_state(s).0 == done.push(cur));
            assert(forall|i: int| 0 <= i < done.len() ==> done.push(cur)[i] == done[i]);
        } else {
            assert(split_state(s).0 == done);
        }
    }
}

/// Every segment of a path is non-empty.
pub proof fn lemma_segments_nonempty(s: Seq<char>)
    ensures
        forall|i: int| 0 <= i < segments(s).len() ==> segments(s)[i].len() > 0,
{
    lemma_split_state_nonempty(s);
}

/// Joining keeps at least the characters of the first segment.
pub proof fn lemma_join_len(segs: Seq<Seq<char>>)
    requires
        segs.len() > 0,
    ensures
        join(segs).len() >= segs[0].len(),
    decreases segs.len(),
{
    if segs.len() > 1 {
        lemma_join_len(segs.drop_last());
    }
}

/// A file found at `path` lands, in full-path mode, at that same path: its directory
/// followed by its own name gives back the path's segments joined with `/`.
pub proof fn lemma_full_path_keeps_path(path: Seq<char>)
    requires
        segments(path).len() > 0,
    ensures
        file_in(parent_of(path), segments(path).last()) == join(segments(path)),
{
    let segs = segments(path);
    if segs.len() > 1 {
        lemma_segments_nonempty(path);
        lemma_join_len(segs.drop_last());
    }
}

} // verus!

//! Reading the data that Blender's export scripts write to stdout.
//!
//! Each exported mesh or armature is framed like this:
//!
//! ```text
//! START_MESH_JSON /path/to/file.blend my_mesh_name
//! {...}
//! END_MESH_JSON /path/to/file.blend my_mesh_name
//! ```
//!
//! Here the frames are found and cut into the file name, the item's name and its JSON, and the
//! items are grouped by file and flattened into one map; turning the JSON into values is left to
//! the caller.
use vstd::prelude::*;
use crate::str_map::StrMap;

verus! {

/// `pat` occurs in `s` at index `k`.
pub open spec fn matches_at(s: Seq<u8>, pat: Seq<u8>, k: int) -> bool {
    &&& 0 <= k
    &&& k + pat.len() <= s.len()
    &&& forall|j: int| 0 <= j < pat.len() ==> s[k + j] == #[trigger] pat[j]
}

/// The first index at or after `from` where `pat` occurs in `s`.
pub open spec fn find_from(s: Seq<u8>, pat: Seq<u8>, from: int) -> Option<int>
    decreases s.len() - from,
{
    if from < 0 || from + pat.len() > s.len() {
        None
    } else if matches_at(s, pat, from) {
        Some(from)
    } else if pat.len() == 0 {
        None
    } else {
        find_from(s, pat, from + 1)
    }
}

/// If `pat` does not occur in `from..k`, searching from `from` is searching from `k`.
pub proof fn lemma_find_skip(s: Seq<u8>, pat: Seq<u8>, from: int, k: int)
    requires
        0 <= from <= k,
        pat.len() > 0,
        k + pat.len() <= s.len() + 1,
        forall|j: int| from <= j < k ==> !matches_at(s, pat, j),
    ensures
        find_from(s, pat, from) == find_from(s, pat, k),
    decreases k - from,
{
    if from < k {
        lemma_find_skip(s, pat, from + 1, k);
    }
}

/// `find_from` finds a match, and the first one.
pub proof fn lemma_find_from(s: Seq<u8>, pat: Seq<u8>, from: int)
    requires
        pat.len() > 0,
        from >= 0,
    ensures
        match find_from(s, pat, from) {
            Some(k) => from <= k && matches_at(s, pat, k) && forall|j: int|
                from <= j < k ==> !matches_at(s, pat, j),
            None => forall|j: int| from <= j ==> !matches_at(s, pat, j),
        },
    decreases s.len() - from,
{
    if from + pat.len() <= s.len() && !matches_at(s, pat, from) {
        lemma_find_from(s, pat, from + 1);
    }
}

/// The first index at or after `from` of the byte `b` in `s`, or `s.len()`.
pub open spec fn find_byte(s: Seq<u8>, b: u8, from: int) -> int
    decreases s.len() - from,
{
    if from >= s.len() || from < 0 {
        s.len() as int
    } else if s[from] == b {
        from
    } else {
        find_byte(s, b, from + 1)
    }
}

/// The last index before `end` of the byte `b` in `s`, or -1.
pub open spec fn rfind_byte(s: Seq<u8>, b: u8, end: int) -> int
    decreases end,
{
    if end <= 0 {
        -1
    } else if s[end - 1] == b {
        end - 1
    } else {
        rfind_byte(s, b, end - 1)
    }
}

/// The text of lines joined without their line endings: every `\n`, and the `\r` of every
/// `\r\n`, is dropped.
pub open spec fn join_lines(r: Seq<u8>) -> Seq<u8>
    decreases r.len(),
{
    if r.len() == 0 {
        r
    } else if r[0] == 10 {
        join_lines(r.drop_first())
    } else if r[0] == 13 && r.len() >= 2 && r[1] == 10 {
        join_lines(r.subrange(2, r.len() as int))
    } else {
        seq![r[0]] + join_lines(r.drop_first())
    }
}

/// The first line of the frame `d`, without its line ending.
pub open spec fn first_line(d: Seq<u8>) -> Seq<u8> {
    let nl = find_byte(d, 10, 0);
    if nl < d.len() && nl > 0 && d[nl - 1] == 13 {
        d.subrange(0, nl - 1)
    } else {
        d.subrange(0, nl)
    }
}

/// What one exported item's frame holds.
#[derive(Debug, PartialEq, Eq, Clone)]
pub struct ExportedFrame {
    /// The second word of the first line: the file the item came from.
    pub filename: Vec<u8>,
    /// The last word of the first line: the item's name.
    pub name: Vec<u8>,
    /// The other lines, joined without their line endings: the item's JSON.
    pub json: Vec<u8>,
}

/// The file name of the frame `d`: the text between the first space of its first line and the
/// next space (or the end of the line).
pub open spec fn frame_filename(d: Seq<u8>) -> Seq<u8> {
    let line = first_line(d);
    let sp1 = find_byte(line, 32, 0);
    let sp2 = find_byte(line, 32, sp1 + 1);
    line.subrange(sp1 + 1, sp2)
}

/// The item name of the frame `d`: the text after the last space of its first line.
pub open spec fn frame_name(d: Seq<u8>) -> Seq<u8> {
    let line = first_line(d);
    line.subrange(rfind_byte(line, 32, line.len() as int) + 1, line.len() as int)
}

/// The JSON of the frame `d`: the lines after the first, joined.
pub open spec fn frame_json(d: Seq<u8>) -> Seq<u8> {
    let nl = find_byte(d, 10, 0);
    if nl < d.len() {
        join_lines(d.subrange(nl + 1, d.len() as int))
    } else {
        seq![]
    }
}

/// The frames in `s` from `index` on: each starts at the first `start` marker and ends just before
/// the first `end` marker (both searched from the same place), and the search goes on one byte
/// after that `end` marker.
pub open spec fn frames_from(s: Seq<u8>, start: Seq<u8>, end: Seq<u8>, index: int) -> Seq<
    (Seq<u8>, Seq<u8>, Seq<u8>),
>
    decreases s.len() - index,
{
    if index < 0 || index > s.len() || end.len() == 0 {
        seq![]
    } else {
        match (find_from(s, start, index), find_from(s, end, index)) {
            (Some(a), Some(e)) => if a <= e && e < s.len() {
                proof {
                    lemma_find_from(s, end, index);
                }
                let d = s.subrange(a, e);
                seq![(frame_filename(d), frame_name(d), frame_json(d))] + frames_from(
                    s,
                    start,
                    end,
                    e + 1,
                )
            } else {
                seq![]
            },
            _ => seq![],
        }
    }
}

/// Every frame in `s` from `index` on can be read without a panic: an `end` marker follows each
/// `start` marker (searched from the same place, so the end comes after the start) and the
/// first line of each frame has a space.
pub open spec fn frames_well_formed(s: Seq<u8>, start: Seq<u8>, end: Seq<u8>, index: int) -> bool
    decreases s.len() - index,
{
    if index < 0 || index > s.len() || end.len() == 0 {
        true
    } else {
        match find_from(s, start, index) {
            None => true,
            Some(a) => match find_from(s, end, index) {
                None => false,
                Some(e) => {
                    proof {
                        lemma_find_from(s, end, index);
                    }
                    a <= e && e < s.len() && find_byte(first_line(s.subrange(a, e)), 32, 0)
                    < first_line(s.subrange(a, e)).len() && frames_well_formed(s, start, end, e + 1)
                },
            },
        }
    }
}

/// Whether `pat` occurs in `s` at index `k`.
fn match_at(s: &[u8], pat: &[u8], k: usize) -> (r: bool)
    ensures
        r == matches_at(s@, pat@, k as int),
{
    if pat.len() > s.len() || k > s.len() - pat.len() {
        return false;
    }
    let sl = s.len();
    let mut j: usize = 0;
    while j < pat.len()
        invariant
            sl == s@.len(),
            k + pat@.len() <= s@.len(),
            j <= pat@.len(),
            forall|i: int| 0 <= i < j ==> s@[k + i] == #[trigger] pat@[i],
        decreases pat@.len() - j,
    {
        if s[k + j] != pat[j] {
            return false;
        }
        j = j + 1;
    }
    true
}

/// The first index at or after `from` where `pat` occurs in `s`.
fn find_at_or_after(s: &[u8], pat: &[u8], from: usize) -> (r: Option<usize>)
    requires
        pat@.len() > 0,
        from <= s@.len(),
    ensures
        match r {
            Some(k) => find_from(s@, pat@, from as int) == Some(k as int),
            None => find_from(s@, pat@, from as int) is None,
        },
{
    let sl = s.len();
    if pat.len() > sl {
        return None;
    }
    let last = sl - pat.len();
    if from > last {
        return None;
    }
    let mut k = from;
    while k <= last
        invariant
            sl == s@.len(),
            pat@.len() > 0,
            from <= k <= last + 1,
            last + pat@.len() == s@.len(),
            forall|j: int| from <= j < k ==> !matches_at(s@, pat@, j),
        decreases last + 1 - k,
    {
        if match_at(s, pat, k) {
            proof {
                lemma_find_skip(s@, pat@, from as int, k as int);
            }
            return Some(k);
        }
        k = k + 1;
    }
    proof {
        lemma_find_skip(s@, pat@, from as int, k as int);
    }
    None
}

/// If `b` does not occur in `from..k`, searching from `from` is searching from `k`.
proof fn lemma_find_byte_skip(s: Seq<u8>, b: u8, from: int, k: int)
    requires
        0 <= from <= k <= s.len(),
        forall|j: int| from <= j < k ==> s[j] != b,
    ensures
        find_byte(s, b, from) == find_byte(s, b, k),
    decreases k - from,
{
    if from < k {
        lemma_find_byte_skip(s, b, from + 1, k);
    }
}

/// The first index at or after `from` of the byte `b`, or the length.
fn find_byte_from(s: &[u8], b: u8, from: usize) -> (r: usize)
    requires
        from <= s@.len(),
    ensures
        r == find_byte(s@, b, from as int),
        from <= r <= s@.len(),
{
    let mut k = from;
    while k < s.len()
        invariant
            from <= k <= s@.len(),
            forall|j: int| from <= j < k ==> s@[j] != b,
        decreases s@.len() - k,
    {
        if s[k] == b {
            proof {
                lemma_find_byte_skip(s@, b, from as int, k as int);
            }
            return k;
        }
        k = k + 1;
    }
    proof {
        lemma_find_byte_skip(s@, b, from as int, k as int);
    }
    k
}

/// One past the last index of the byte `b` in the whole of `s` (0 if there is none).
fn rfind_byte_end(s: &[u8], b: u8) -> (r: usize)
    ensures
        r == rfind_byte(s@, b, s@.len() as int) + 1,
{
    let mut k = s.len();
    while k > 0
        invariant
            k <= s@.len(),
            rfind_byte(s@, b, s@.len() as int) == rfind_byte(s@, b, k as int),
        decreases k,
    {
        if s[k - 1] == b {
            return k;
        }
        k = k - 1;
    }
    0
}

/// The bytes `lo..hi` of `s`.
fn copy_range(s: &[u8], lo: usize, hi: usize) -> (r: Vec<u8>)
    requires
        lo <= hi <= s@.len(),
    ensures
        r@ == s@.subrange(lo as int, hi as int),
{
    let mut r: Vec<u8> = Vec::new();
    let mut i = lo;
    while i < hi
        invariant
            lo <= i <= hi,
            hi <= s@.len(),
            r@ =~= s@.subrange(lo as int, i as int),
        decreases hi - i,
    {
        r.push(s[i]);
        i = i + 1;
    }
    r
}

/// The lines of `t` from `start` on, joined without their line endings.
fn join_lines_from(t: &[u8], start: usize) -> (r: Vec<u8>)
    requires
        start <= t@.len(),
    ensures
        r@ == join_lines(t@.subrange(start as int, t@.len() as int)),
{
    let n = t.len();
    let mut out: Vec<u8> = Vec::new();
    let mut i = start;
    while i < n
        invariant
            n == t@.len(),
            start <= i <= n,
            out@ + join_lines(t@.subrange(i as int, n as int)) == join_lines(
                t@.subrange(start as int, n as int),
            ),
        decreases n - i,
    {
        let ghost rest = t@.subrange(i as int, n as int);
        assert(rest.drop_first() =~= t@.subrange(i + 1, n as int));
        if t[i] == 10 {
            i = i + 1;
        } else if t[i] == 13 && i + 1 < n && t[i + 1] == 10 {
            assert(rest.subrange(2, rest.len() as int) =~= t@.subrange(i + 2, n as int));
            i = i + 2;
        } else {
            let ghost before = out@;
            out.push(t[i]);
            assert(out@ + join_lines(t@.subrange(i + 1, n as int)) =~= before + (seq![t@[i as int]]
                + join_lines(t@.subrange(i + 1, n as int))));
            i = i + 1;
        }
    }
    assert(t@.subrange(n as int, n as int).len() == 0);
    assert(out@ + join_lines(t@.subrange(n as int, n as int)) =~= out@);
    out
}

/// Cut the frame `d` into its file name, item name and JSON.
fn read_frame(d: &[u8]) -> (r: ExportedFrame)
    requires
        find_byte(first_line(d@), 32, 0) < first_line(d@).len(),
    ensures
        r.filename@ == frame_filename(d@),
        r.name@ == frame_name(d@),
        r.json@ == frame_json(d@),
{
    let nl = find_byte_from(d, 10, 0);
    let line_end = if nl < d.len() && nl > 0 && d[nl - 1] == 13 {
        nl - 1
    } else {
        nl
    };
    let line = copy_range(d, 0, line_end);
    assert(line@ == first_line(d@));
    let sp1 = find_byte_from(line.as_slice(), 32, 0);
    let sp2 = find_byte_from(line.as_slice(), 32, sp1 + 1);
    let filename = copy_range(line.as_slice(), sp1 + 1, sp2);
    let after_last = rfind_byte_end(line.as_slice(), 32);
    proof {
        let l = line@;
        let r0 = rfind_byte(l, 32, l.len() as int);
        assert(-1 <= r0 < l.len()) by {
            lemma_rfind_byte_bounds(l, 32, l.len() as int);
        }
    }
    let name = copy_range(line.as_slice(), after_last, line.len());
    let json = if nl < d.len() {
        join_lines_from(d, nl + 1)
    } else {
        Vec::new()
    };
    ExportedFrame { filename, name, json }
}

/// The last index of a byte before `end` lies before `end`.
proof fn lemma_rfind_byte_bounds(s: Seq<u8>, b: u8, end: int)
    ensures
        -1 <= rfind_byte(s, b, end) < if end > 0 { end } else { 0 },
    decreases end,
{
    if end > 0 && s[end - 1] != b {
        lemma_rfind_byte_bounds(s, b, end - 1);
    }
}

/// The frame views of the exported frames.
pub open spec fn frame_views(frames: Seq<ExportedFrame>) -> Seq<(Seq<u8>, Seq<u8>, Seq<u8>)> {
    frames.map_values(|f: ExportedFrame| (f.filename@, f.name@, f.json@))
}

/// Find every frame between the `start` and `end` markers in Blender's stdout and cut it into its
/// file name, item name and JSON.
pub fn parse_export_frames(stdout: &[u8], start: &[u8], end: &[u8]) -> (r: Vec<ExportedFrame>)
    requires
        start@.len() > 0,
        end@.len() > 0,
        frames_well_formed(stdout@, start@, end@, 0),
    ensures
        frame_views(r@) == frames_from(stdout@, start@, end@, 0),
{
    let mut out: Vec<ExportedFrame> = Vec::new();
    let mut index: usize = 0;
    let ghost s = stdout@;
    let sl = stdout.len();
    loop
        invariant
            s == stdout@,
            sl == s.len(),
            start@.len() > 0,
            end@.len() > 0,
            index <= s.len(),
            frames_well_formed(s, start@, end@, index as int),
            frame_views(out@) + frames_from(s, start@, end@, index as int) == frames_from(
                s,
                start@,
                end@,
                0,
            ),
        ensures
            frame_views(out@) == frames_from(s, start@, end@, 0),
        decreases s.len() - index,
    {
        let a = find_at_or_after(stdout, start, index);
        let a = match a {
            None => {
                assert(frames_from(s, start@, end@, index as int) =~= Seq::<
                    (Seq<u8>, Seq<u8>, Seq<u8>),
                >::empty());
                assert(frame_views(out@) + Seq::<(Seq<u8>, Seq<u8>, Seq<u8>)>::empty() =~= frame_views(
                    out@,
                ));
                break ;
            },
            Some(a) => a,
        };
        let e = match find_at_or_after(stdout, end, index) {
            None => {
                proof {
                    assert(find_from(s, start@, index as int) == Some(a as int));
                    assert(find_from(s, end@, index as int) is None);
                    assert(!frames_well_formed(s, start@, end@, index as int));
                }
                return out;
            },
            Some(e) => e,
        };
        proof {
            lemma_find_from(s, end@, index as int);
            assert(find_from(s, start@, index as int) == Some(a as int));
            assert(find_from(s, end@, index as int) == Some(e as int));
            assert(a <= e && e < s.len());
            assert(frames_well_formed(s, start@, end@, e + 1));
        }
        let d = copy_range(stdout, a, e);
        let frame = read_frame(d.as_slice());
        let ghost before = out@;
        out.push(frame);
        proof {
            assert(frame_views(out@) =~= frame_views(before).push(
                (frame.filename@, frame.name@, frame.json@),
            ));
            let tail = frames_from(s, start@, end@, e + 1);
            assert(frames_from(s, start@, end@, index as int) == seq![
                (frame.filename@, frame.name@, frame.json@),
            ] + tail);
            assert(frame_views(out@) + tail =~= frame_views(before) + (seq![
                (frame.filename@, frame.name@, frame.json@),
            ] + tail));
        }
        index = e + 1;
    }
    out
}

/// Items (file name, item name, item) grouped by file; a later item of the same name in the same
/// file replaces an earlier one.
pub open spec fn grouped<T>(items: Seq<(String, String, T)>) -> Map<Seq<char>, Map<Seq<char>, T>>
    decreases items.len(),
{
    if items.len() == 0 {
        Map::empty()
    } else {
        let g = grouped(items.drop_last());
        let (f, n, v) = items.last();
        let inner = if g.contains_key(f@) {
            g[f@]
        } else {
            Map::empty()
        };
        g.insert(f@, inner.insert(n@, v))
    }
}

/// The contents of a map of maps.
pub open spec fn nested_contents<T>(m: StrMap<StrMap<T>>) -> Map<Seq<char>, Map<Seq<char>, T>> {
    m.contents().map_values(|inner: StrMap<T>| inner.contents())
}

/// Group items (file name, item name, item) by file name, then by item name.
pub fn group_by_filename<T>(items: Vec<(String, String, T)>) -> (r: StrMap<StrMap<T>>)
    ensures
        nested_contents(r) == grouped(items@),
{
    let ghost all = items@;
    let n0 = items.len();
    let mut rest = items;
    let mut acc: StrMap<StrMap<T>> = StrMap::new();
    let mut i: usize = 0;
    assert(nested_contents(acc) =~= grouped(all.take(0)));
    while rest.len() > 0
        invariant
            all.len() == n0,
            i <= n0,
            rest@ == all.skip(i as int),
            nested_contents(acc) == grouped(all.take(i as int)),
        decreases rest@.len(),
    {
        let (f, name, v) = rest.remove(0);
        proof {
            assert((f, name, v) == all[i as int]);
            assert(all.skip(i + 1) =~= all.skip(i as int).drop_first());
            assert(all.take(i + 1).drop_last() =~= all.take(i as int));
        }
        let ghost g = nested_contents(acc);
        let mut inner = match acc.remove(&f) {
            Some(m) => m,
            None => StrMap::new(),
        };
        inner.insert(name, v);
        acc.insert(f, inner);
        proof {
            let inner0 = if g.contains_key(f@) {
                g[f@]
            } else {
                Map::empty()
            };
            assert(nested_contents(acc) =~= g.insert(f@, inner0.insert(name@, v)));
        }
        i = i + 1;
    }
    assert(all.take(n0 as int) =~= all);
    acc
}

/// Each item name paired with the name of the file it is in, file by file.
pub open spec fn name_file_pairs<T>(files: Seq<(String, StrMap<T>)>) -> Seq<(Seq<char>, Seq<char>)>
    decreases files.len(),
{
    if files.len() == 0 {
        seq![]
    } else {
        name_file_pairs(files.drop_last()) + files.last().1.entry_seq().map_values(
            |e: (String, T)| (e.0@, files.last().0@),
        )
    }
}

/// The files that hold an item named `n`, in order.
pub open spec fn files_of(pairs: Seq<(Seq<char>, Seq<char>)>, n: Seq<char>) -> Seq<Seq<char>>
    decreases pairs.len(),
{
    if pairs.len() == 0 {
        seq![]
    } else {
        let p = files_of(pairs.drop_last(), n);
        if pairs.last().0 == n {
            p.push(pairs.last().1)
        } else {
            p
        }
    }
}

/// Every item name with the files it is in.
pub open spec fn names_to_files(pairs: Seq<(Seq<char>, Seq<char>)>) -> Map<Seq<char>, Seq<Seq<char>>> {
    Map::new(|n: Seq<char>| files_of(pairs, n).len() > 0, |n: Seq<char>| files_of(pairs, n))
}

/// The names that are in more than one file, with the files they are in.
pub open spec fn duplicate_names_of(pairs: Seq<(Seq<char>, Seq<char>)>) -> Map<Seq<char>, Seq<Seq<char>>> {
    Map::new(|n: Seq<char>| files_of(pairs, n).len() > 1, |n: Seq<char>| files_of(pairs, n))
}

/// The items of all of the files in one map; an item in a later file replaces one of the same
/// name in an earlier file.
pub open spec fn flattened<T>(files: Seq<(String, StrMap<T>)>) -> Map<Seq<char>, T>
    decreases files.len(),
{
    if files.len() == 0 {
        Map::empty()
    } else {
        flattened(files.drop_last()).union_prefer_right(files.last().1.contents())
    }
}

/// The names of the strings.
pub open spec fn string_views(v: Seq<String>) -> Seq<Seq<char>> {
    v.map_values(|s: String| s@)
}

/// The contents of a map of file lists, each list by the files' names.
pub open spec fn file_lists(m: StrMap<Vec<String>>) -> Map<Seq<char>, Seq<Seq<char>>> {
    m.contents().map_values(|v: Vec<String>| string_views(v@))
}

/// Record that the item `name` is in `file`.
fn note_file(acc: &mut StrMap<Vec<String>>, name: &String, file: &String)
    ensures
        file_lists(*final(acc)) == file_lists(*old(acc)).insert(
            name@,
            if file_lists(*old(acc)).contains_key(name@) {
                file_lists(*old(acc))[name@].push(file@)
            } else {
                seq![file@]
            },
        ),
{
    let ghost before = file_lists(*acc);
    let ghost old_contents = acc.contents();
    let mut files = match acc.remove(name) {
        Some(v) => v,
        None => Vec::new(),
    };
    let ghost prev = files@;
    let ghost removed = acc.contents();
    assert(removed == old_contents.remove(name@));
    proof {
        if before.contains_key(name@) {
            assert(string_views(prev) == before[name@]);
        } else {
            assert(prev.len() == 0);
            assert(string_views(prev) =~= Seq::<Seq<char>>::empty());
        }
    }
    files.push(file.clone());
    assert(string_views(files@) =~= string_views(prev).push(file@));
    let key = name.clone();
    let ghost fv = files;
    acc.insert(key, files);
    assert(acc.contents() == removed.insert(name@, fv));
    assert(file_lists(*acc) =~= before.insert(
        name@,
        if before.contains_key(name@) {
            before[name@].push(file@)
        } else {
            seq![file@]
        },
    ));
}

/// One more pair: its name's file list grows by its file.
proof fn lemma_names_to_files_push(p: Seq<(Seq<char>, Seq<char>)>, x: (Seq<char>, Seq<char>))
    ensures
        names_to_files(p.push(x)) == names_to_files(p).insert(
            x.0,
            if names_to_files(p).contains_key(x.0) {
                names_to_files(p)[x.0].push(x.1)
            } else {
                seq![x.1]
            },
        ),
{
    let q = p.push(x);
    assert(q.drop_last() =~= p);
    assert forall|n: Seq<char>| n != x.0 implies files_of(q, n) == files_of(p, n) by {}
    if !names_to_files(p).contains_key(x.0) {
        assert(files_of(p, x.0).len() == 0);
        assert(files_of(q, x.0) =~= seq![x.1]);
    }
    assert(names_to_files(q) =~= names_to_files(p).insert(
        x.0,
        if names_to_files(p).contains_key(x.0) {
            names_to_files(p)[x.0].push(x.1)
        } else {
            seq![x.1]
        },
    ));
}

/// Every item name of the files, with the files it is in (in order).
pub fn item_files<T>(by_file: &StrMap<StrMap<T>>) -> (r: StrMap<Vec<String>>)
    ensures
        file_lists(r) == names_to_files(name_file_pairs(by_file.entry_seq())),
{
    let files = by_file.entries();
    let ghost fs = files@;
    let mut acc: StrMap<Vec<String>> = StrMap::new();
    let mut i: usize = 0;
    assert(fs.take(0) =~= Seq::<(String, StrMap<T>)>::empty());
    assert(file_lists(acc) =~= names_to_files(name_file_pairs(fs.take(0))));
    while i < files.len()
        invariant
            fs == files@,
            fs == by_file.entry_seq(),
            i <= fs.len(),
            file_lists(acc) == names_to_files(name_file_pairs(fs.take(i as int))),
        decreases fs.len() - i,
    {
        let file = &files[i].0;
        let items = files[i].1.entries();
        let ghost base = name_file_pairs(fs.take(i as int));
        let ghost its = items@;
        let mut j: usize = 0;
        assert(base + its.take(0).map_values(|e: (String, T)| (e.0@, file@)) =~= base);
        while j < items.len()
            invariant
                its == items@,
                j <= its.len(),
                file_lists(acc) == names_to_files(
                    base + its.take(j as int).map_values(|e: (String, T)| (e.0@, file@)),
                ),
            decreases its.len() - j,
        {
            let ghost p = base + its.take(j as int).map_values(|e: (String, T)| (e.0@, file@));
            proof {
                lemma_names_to_files_push(p, (its[j as int].0@, file@));
                assert(base + its.take(j + 1).map_values(|e: (String, T)| (e.0@, file@)) =~= p.push(
                    (its[j as int].0@, file@),
                ));
            }
            note_file(&mut acc, &items[j].0, file);
            j = j + 1;
        }
        proof {
            assert(its.take(its.len() as int) =~= its);
            assert(fs.take(i + 1).drop_last() =~= fs.take(i as int));
            assert(fs.take(i + 1).last() == fs[i as int]);
        }
        i = i + 1;
    }
    assert(fs.take(fs.len() as int) =~= fs);
    acc
}

/// Keep the names whose file lists have more than one file.
pub fn keep_duplicates(all: StrMap<Vec<String>>) -> (r: StrMap<Vec<String>>)
    ensures
        file_lists(r) == Map::new(
            |n: Seq<char>| file_lists(all).contains_key(n) && file_lists(all)[n].len() > 1,
            |n: Seq<char>| file_lists(all)[n],
        ),
{
    let ghost before = file_lists(all);
    let ghost orig = all.contents();
    let entries = all.into_entries();
    let ghost es = entries@;
    proof {
        assert(orig == crate::str_map::entries_map(es));
    }
    let mut acc: StrMap<Vec<String>> = StrMap::new();
    let n0 = entries.len();
    let mut rest = entries;
    let mut i: usize = 0;
    assert(es.skip(0) =~= es);
    while rest.len() > 0
        invariant
            es.len() == n0,
            rest@ == es.skip(i as int),
            crate::str_map::keys_distinct(es),
            orig == crate::str_map::entries_map(es),
            before == orig.map_values(|v: Vec<String>| string_views(v@)),
            i <= es.len(),
            forall|n: Seq<char>| #[trigger]
                acc.contents().contains_key(n) == (exists|j: int|
                    0 <= j < i && (#[trigger] es[j]).0@ == n && es[j].1@.len() > 1),
            forall|j: int|
                0 <= j < i && (#[trigger] es[j]).1@.len() > 1 ==> acc.contents().contains_key(es[j].0@)
                    && acc.contents()[es[j].0@] == es[j].1,
        decreases rest@.len(),
    {
        let ghost before_acc = acc.contents();
        let (k, v) = rest.remove(0);
        proof {
            assert((k, v) == es[i as int]);
            assert(es.skip(i + 1) =~= es.skip(i as int).drop_first());
        }
        if v.len() > 1 {
            acc.insert(k, v);
        }
        proof {
            assert forall|n: Seq<char>| #[trigger]
                acc.contents().contains_key(n) == (exists|j: int|
                    0 <= j < i + 1 && (#[trigger] es[j]).0@ == n && es[j].1@.len() > 1) by {
                if acc.contents().contains_key(n) && !before_acc.contains_key(n) {
                    assert(es[i as int].0@ == n);
                }
                if exists|j: int| 0 <= j < i + 1 && (#[trigger] es[j]).0@ == n && es[j].1@.len() > 1 {
                    let j = choose|j: int| 0 <= j < i + 1 && (#[trigger] es[j]).0@ == n && es[j].1@.len() > 1;
                    if j < i {
                        assert(before_acc.contains_key(n));
                    }
                }
            }
            assert forall|j: int|
                0 <= j < i + 1 && (#[trigger] es[j]).1@.len() > 1 implies acc.contents().contains_key(es[j].0@)
                    && acc.contents()[es[j].0@] == es[j].1 by {
                if j < i {
                    assert(es[j].0@ != es[i as int].0@);
                }
            }
        }
        i = i + 1;
    }
    proof {
        let target = Map::new(
            |n: Seq<char>| before.contains_key(n) && before[n].len() > 1,
            |n: Seq<char>| before[n],
        );
        assert forall|n: Seq<char>| #[trigger] file_lists(acc).contains_key(n) == target.contains_key(n) by {
            if file_lists(acc).contains_key(n) {
                let j = choose|j: int| 0 <= j < i && (#[trigger] es[j]).0@ == n && es[j].1@.len() > 1;
                crate::str_map::lemma_entries_map_index(es, j);
            }
            if target.contains_key(n) {
                let j = choose|j: int| 0 <= j < es.len() && (#[trigger] es[j]).0@ == n;
                crate::str_map::lemma_entries_map_index(es, j);
            }
        }
        assert forall|n: Seq<char>| #[trigger] file_lists(acc).contains_key(n) implies file_lists(acc)[n]
            == target[n] by {
            let j = choose|j: int| 0 <= j < i && (#[trigger] es[j]).0@ == n && es[j].1@.len() > 1;
            crate::str_map::lemma_entries_map_index(es, j);
        }
        assert(file_lists(acc) =~= target);
    }
    acc
}

/// Entries with distinct keys: one more entry adds its key and value to their map.
proof fn lemma_entries_map_push<V>(s: Seq<(String, V)>, e: (String, V))
    requires
        crate::str_map::keys_distinct(s.push(e)),
    ensures
        crate::str_map::entries_map(s.push(e)) == crate::str_map::entries_map(s).insert(e.0@, e.1),
{
    let t = s.push(e);
    assert(crate::str_map::keys_distinct(s)) by {
        assert forall|i: int, j: int|
            0 <= i < s.len() && 0 <= j < s.len() && i != j implies (#[trigger] s[i]).0@ != (
            #[trigger] s[j]).0@ by {
            assert(t[i] == s[i] && t[j] == s[j]);
        }
    }
    let m = crate::str_map::entries_map(s).insert(e.0@, e.1);
    assert forall|k: Seq<char>| #[trigger] crate::str_map::entries_map(t).contains_key(k) == m.contains_key(k) by {
        if crate::str_map::holds_key(t, k) && k != e.0@ {
            let i = choose|i: int| 0 <= i < t.len() && (#[trigger] t[i]).0@ == k;
            assert(i < s.len());
            assert(s[i].0@ == k);
        }
        if crate::str_map::holds_key(s, k) {
            let i = choose|i: int| 0 <= i < s.len() && (#[trigger] s[i]).0@ == k;
            assert(t[i].0@ == k);
        }
        if k == e.0@ {
            assert(t[s.len() as int].0@ == k);
        }
    }
    assert forall|k: Seq<char>| #[trigger] crate::str_map::entries_map(t).contains_key(k) implies crate::str_map::entries_map(t)[k] == m[k] by {
        let i = choose|i: int| 0 <= i < t.len() && (#[trigger] t[i]).0@ == k;
        crate::str_map::lemma_entries_map_index(t, i);
        if i < s.len() {
            crate::str_map::lemma_entries_map_index(s, i);
            assert(t[s.len() as int] == e);
            assert(t[i].0@ != t[s.len() as int].0@);
            assert(k != e.0@);
        }
    }
    assert(crate::str_map::entries_map(t) =~= m);
}

/// The items of all of the files in one map, taking the files apart.
pub fn flatten_owned<T>(by_file: StrMap<StrMap<T>>) -> (r: StrMap<T>)
    ensures
        r.contents() == flattened(by_file.entry_seq()),
{
    let files = by_file.into_entries();
    let ghost fs = files@;
    let n0 = files.len();
    let mut rest = files;
    let mut acc: StrMap<T> = StrMap::new();
    let mut i: usize = 0;
    assert(fs.skip(0) =~= fs);
    assert(acc.contents() =~= flattened(fs.take(0)));
    while rest.len() > 0
        invariant
            fs.len() == n0,
            i <= n0,
            rest@ == fs.skip(i as int),
            acc.contents() == flattened(fs.take(i as int)),
        decreases rest@.len(),
    {
        let (f, inner) = rest.remove(0);
        proof {
            assert((f, inner) == fs[i as int]);
            assert(fs.skip(i + 1) =~= fs.skip(i as int).drop_first());
            assert(fs.take(i + 1).drop_last() =~= fs.take(i as int));
        }
        let ghost base = acc.contents();
        let ghost inner_contents = inner.contents();
        let items = inner.into_entries();
        let ghost its = items@;
        let m0 = items.len();
        let mut rest_items = items;
        let mut j: usize = 0;
        assert(its.skip(0) =~= its);
        assert(its.take(0) =~= Seq::<(String, T)>::empty());
        assert(base.union_prefer_right(crate::str_map::entries_map(its.take(0))) =~= base);
        while rest_items.len() > 0
            invariant
                its.len() == m0,
                j <= m0,
                crate::str_map::keys_distinct(its),
                rest_items@ == its.skip(j as int),
                acc.contents() == base.union_prefer_right(crate::str_map::entries_map(its.take(j as int))),
            decreases rest_items@.len(),
        {
            let (k, v) = rest_items.remove(0);
            proof {
                assert((k, v) == its[j as int]);
                assert(its.skip(j + 1) =~= its.skip(j as int).drop_first());
                assert(its.take(j + 1) =~= its.take(j as int).push((k, v)));
                assert(crate::str_map::keys_distinct(its.take(j + 1))) by {
                    assert forall|a: int, b: int|
                        0 <= a < j + 1 && 0 <= b < j + 1 && a != b implies (#[trigger] its.take(j + 1)[a]).0@
                        != (#[trigger] its.take(j + 1)[b]).0@ by {
                        assert(its.take(j + 1)[a] == its[a] && its.take(j + 1)[b] == its[b]);
                    }
                }
                lemma_entries_map_push(its.take(j as int), (k, v));
            }
            let ghost before = acc.contents();
            acc.insert(k, v);
            proof {
                assert(acc.contents() =~= base.union_prefer_right(
                    crate::str_map::entries_map(its.take(j + 1)),
                ));
            }
            j = j + 1;
        }
        proof {
            assert(its.take(m0 as int) =~= its);
            assert(inner_contents == crate::str_map::entries_map(its));
        }
        i = i + 1;
    }
    assert(fs.take(n0 as int) =~= fs);
    acc
}

/// The items of all of the files in one map, by reference.
pub fn flatten_refs<'a, T>(by_file: &'a StrMap<StrMap<T>>) -> (r: StrMap<&'a T>)
    ensures
        forall|n: Seq<char>| #[trigger]
            r.contents().contains_key(n) == flattened(by_file.entry_seq()).contains_key(n),
        forall|n: Seq<char>| #[trigger]
            r.contents().contains_key(n) ==> *r.contents()[n] == flattened(by_file.entry_seq())[n],
{
    let files = by_file.entries();
    let ghost fs = files@;
    let mut acc: StrMap<&'a T> = StrMap::new();
    let mut i: usize = 0;
    assert(fs.take(0) =~= Seq::<(String, StrMap<T>)>::empty());
    while i < files.len()
        invariant
            fs == files@,
            fs == by_file.entry_seq(),
            i <= fs.len(),
            forall|n: Seq<char>| #[trigger]
                acc.contents().contains_key(n) == flattened(fs.take(i as int)).contains_key(n),
            forall|n: Seq<char>| #[trigger]
                acc.contents().contains_key(n) ==> *acc.contents()[n] == flattened(fs.take(i as int))[n],
        decreases fs.len() - i,
    {
        let inner = &files[i].1;
        let items = inner.entries();
        let ghost its = items@;
        let ghost base = flattened(fs.take(i as int));
        proof {
            assert(inner.contents() == crate::str_map::entries_map(its));
        }
        let mut j: usize = 0;
        assert(its.take(0) =~= Seq::<(String, T)>::empty());
        while j < items.len()
            invariant
                its == items@,
                j <= its.len(),
                crate::str_map::keys_distinct(its),
                forall|n: Seq<char>| #[trigger]
                    acc.contents().contains_key(n) == base.union_prefer_right(
                        crate::str_map::entries_map(its.take(j as int)),
                    ).contains_key(n),
                forall|n: Seq<char>| #[trigger]
                    acc.contents().contains_key(n) ==> *acc.contents()[n] == base.union_prefer_right(
                        crate::str_map::entries_map(its.take(j as int)),
                    )[n],
            decreases its.len() - j,
        {
            proof {
                assert(its.take(j + 1) =~= its.take(j as int).push(its[j as int]));
                assert(crate::str_map::keys_distinct(its.take(j + 1))) by {
                    assert forall|a: int, b: int|
                        0 <= a < j + 1 && 0 <= b < j + 1 && a != b implies (#[trigger] its.take(j + 1)[a]).0@
                        != (#[trigger] its.take(j + 1)[b]).0@ by {
                        assert(its.take(j + 1)[a] == its[a] && its.take(j + 1)[b] == its[b]);
                    }
                }
                lemma_entries_map_push(its.take(j as int), its[j as int]);
            }
            let k = items[j].0.clone();
            acc.insert(k, &items[j].1);
            j = j + 1;
        }
        proof {
            assert(its.take(its.len() as int) =~= its);
            assert(fs.take(i + 1).drop_last() =~= fs.take(i as int));
            assert(fs.take(i + 1).last() == fs[i as int]);
        }
        i = i + 1;
    }
    assert(fs.take(fs.len() as int) =~= fs);
    acc
}

/// The marker bytes that start an exported mesh: `START_MESH_JSON`.
pub open spec fn start_mesh_marker() -> Seq<u8> {
    seq![83u8, 84, 65, 82, 84, 95, 77, 69, 83, 72, 95, 74, 83, 79, 78]
}

/// The marker bytes that end an exported mesh: `END_MESH_JSON`.
pub open spec fn end_mesh_marker() -> Seq<u8> {
    seq![69u8, 78, 68, 95, 77, 69, 83, 72, 95, 74, 83, 79, 78]
}

/// The marker bytes that start an exported armature: `START_ARMATURE_JSON`.
pub open spec fn start_armature_marker() -> Seq<u8> {
    seq![83u8, 84, 65, 82, 84, 95, 65, 82, 77, 65, 84, 85, 82, 69, 95, 74, 83, 79, 78]
}

/// The marker bytes that end an exported armature: `END_ARMATURE_JSON`.
pub open spec fn end_armature_marker() -> Seq<u8> {
    seq![69u8, 78, 68, 95, 65, 82, 77, 65, 84, 85, 82, 69, 95, 74, 83, 79, 78]
}

/// The frames of the meshes that `blender-mesh-to-json.py` wrote to stdout.
pub fn mesh_frames_from_blender_stdout(stdout: &[u8]) -> (r: Vec<ExportedFrame>)
    requires
        frames_well_formed(stdout@, start_mesh_marker(), end_mesh_marker(), 0),
    ensures
        frame_views(r@) == frames_from(stdout@, start_mesh_marker(), end_mesh_marker(), 0),
{
    let start: Vec<u8> = vec![83, 84, 65, 82, 84, 95, 77, 69, 83, 72, 95, 74, 83, 79, 78];
    let end: Vec<u8> = vec![69, 78, 68, 95, 77, 69, 83, 72, 95, 74, 83, 79, 78];
    assert(start@ =~= start_mesh_marker());
    assert(end@ =~= end_mesh_marker());
    parse_export_frames(stdout, start.as_slice(), end.as_slice())
}

/// The frames of the armatures that `blender-armature-to-json.py` wrote to stdout.
pub fn armature_frames_from_blender_stdout(stdout: &[u8]) -> (r: Vec<ExportedFrame>)
    requires
        frames_well_formed(stdout@, start_armature_marker(), end_armature_marker(), 0),
    ensures
        frame_views(r@) == frames_from(stdout@, start_armature_marker(), end_armature_marker(), 0),
{
    let start: Vec<u8> = vec![83, 84, 65, 82, 84, 95, 65, 82, 77, 65, 84, 85, 82, 69, 95, 74, 83, 79, 78];
    let end: Vec<u8> = vec![69, 78, 68, 95, 65, 82, 77, 65, 84, 85, 82, 69, 95, 74, 83, 79, 78];
    assert(start@ =~= start_armature_marker());
    assert(end@ =~= end_armature_marker());
    parse_export_frames(stdout, start.as_slice(), end.as_slice())
}

/// Keeping the names in more than one file of every name's files gives the duplicates.
pub proof fn lemma_duplicates_of_names(pairs: Seq<(Seq<char>, Seq<char>)>)
    ensures
        Map::new(
            |n: Seq<char>| names_to_files(pairs).contains_key(n) && names_to_files(pairs)[n].len() > 1,
            |n: Seq<char>| names_to_files(pairs)[n],
        ) == duplicate_names_of(pairs),
{
    assert(Map::new(
        |n: Seq<char>| names_to_files(pairs).contains_key(n) && names_to_files(pairs)[n].len() > 1,
        |n: Seq<char>| names_to_files(pairs)[n],
    ) =~= duplicate_names_of(pairs));
}

/// A map of file lists is empty exactly when it has no entries.
pub proof fn lemma_empty_iff_no_entries(m: StrMap<Vec<String>>)
    ensures
        (m.entry_seq().len() == 0) == (file_lists(m) == Map::<Seq<char>, Seq<Seq<char>>>::empty()),
{
    if m.entry_seq().len() == 0 {
        assert(file_lists(m) =~= Map::<Seq<char>, Seq<Seq<char>>>::empty());
    } else {
        let k = m.entry_seq()[0].0@;
        assert(crate::str_map::holds_key(m.entry_seq(), k));
        assert(file_lists(m).contains_key(k));
    }
}

/// Whether every frame in Blender's stdout can be read (see `frames_well_formed`).
pub fn export_frames_well_formed(stdout: &[u8], start: &[u8], end: &[u8]) -> (r: bool)
    requires
        start@.len() > 0,
        end@.len() > 0,
    ensures
        r == frames_well_formed(stdout@, start@, end@, 0),
{
    let mut index: usize = 0;
    let ghost s = stdout@;
    let sl = stdout.len();
    loop
        invariant
            s == stdout@,
            sl == s.len(),
            start@.len() > 0,
            end@.len() > 0,
            index <= s.len(),
            frames_well_formed(s, start@, end@, 0) == frames_well_formed(s, start@, end@, index as int),
        decreases s.len() - index,
    {
        let a = match find_at_or_after(stdout, start, index) {
            None => {
                return true;
            },
            Some(a) => a,
        };
        let e = match find_at_or_after(stdout, end, index) {
            None => {
                return false;
            },
            Some(e) => e,
        };
        proof {
            lemma_find_from(s, end@, index as int);
        }
        if a > e || e >= sl {
            return false;
        }
        let d = copy_range(stdout, a, e);
        let nl = find_byte_from(d.as_slice(), 10, 0);
        let line_end = if nl < d.len() && nl > 0 && d[nl - 1] == 13 {
            nl - 1
        } else {
            nl
        };
        let line = copy_range(d.as_slice(), 0, line_end);
        assert(line@ == first_line(d@));
        let sp1 = find_byte_from(line.as_slice(), 32, 0);
        if sp1 >= line.len() {
            return false;
        }
        index = e + 1;
    }
}

/// Whether the meshes in Blender's stdout can all be read.
pub fn mesh_frames_well_formed(stdout: &[u8]) -> (r: bool)
    ensures
        r == frames_well_formed(stdout@, start_mesh_marker(), end_mesh_marker(), 0),
{
    let start: Vec<u8> = vec![83, 84, 65, 82, 84, 95, 77, 69, 83, 72, 95, 74, 83, 79, 78];
    let end: Vec<u8> = vec![69, 78, 68, 95, 77, 69, 83, 72, 95, 74, 83, 79, 78];
    assert(start@ =~= start_mesh_marker());
    assert(end@ =~= end_mesh_marker());
    export_frames_well_formed(stdout, start.as_slice(), end.as_slice())
}

/// Whether the armatures in Blender's stdout can all be read.
pub fn armature_frames_well_formed(stdout: &[u8]) -> (r: bool)
    ensures
        r == frames_well_formed(stdout@, start_armature_marker(), end_armature_marker(), 0),
{
    let start: Vec<u8> = vec![83, 84, 65, 82, 84, 95, 65, 82, 77, 65, 84, 85, 82, 69, 95, 74, 83, 79, 78];
    let end: Vec<u8> = vec![69, 78, 68, 95, 65, 82, 77, 65, 84, 85, 82, 69, 95, 74, 83, 79, 78];
    assert(start@ =~= start_armature_marker());
    assert(end@ =~= end_armature_marker());
    export_frames_well_formed(stdout, start.as_slice(), end.as_slice())
}

} // verus!

use vstd::prelude::*;

verus! {

/// A path with every backslash turned into a slash.
pub open spec fn with_slashes(path: Seq<u8>) -> Seq<u8> {
    path.map_values(|c: u8| if c == 92 { 47u8 } else { c })
}

/// The text with every occurrence of `pattern` removed, searching from the left and going on
/// after each occurrence, as `str::replace` with an empty replacement does.
pub open spec fn remove_all(s: Seq<u8>, pattern: Seq<u8>) -> Seq<u8>
    recommends
        pattern.len() > 0,
    decreases s.len(),
{
    if s.len() == 0 || pattern.len() == 0 {
        s
    } else if s.len() >= pattern.len() && s.take(pattern.len() as int) == pattern {
        remove_all(s.skip(pattern.len() as int), pattern)
    } else {
        seq![s[0]] + remove_all(s.drop_first(), pattern)
    }
}

/// The part of a path before its first dot.
pub open spec fn before_first_dot(path: Seq<u8>) -> Seq<u8> {
    if exists|i: int| 0 <= i < path.len() && path[i] == 46 {
        path.take(choose|i: int| 0 <= i < path.len() && path[i] == 46 && forall|j: int| 0 <= j < i ==> path[j] != 46)
    } else {
        path
    }
}

/// The ending of the data files that describe sprite sheets.
pub open spec fn data_ending() -> Seq<u8> {
    seq![46u8, 97, 115, 101, 112, 114, 105, 116, 101, 46, 106, 115, 111, 110]
}

/// The name of the sheet a data file describes: its path with slashes and without the data
/// ending.
pub open spec fn sheet_name_of_data(path: Seq<u8>) -> Seq<u8> {
    remove_all(with_slashes(path), data_ending())
}

/// The name of the sheet an image holds: its path with slashes, up to its first dot.
pub open spec fn sheet_name_of_image(path: Seq<u8>) -> Seq<u8> {
    before_first_dot(with_slashes(path))
}

/// Return the path with every backslash turned into a slash.
pub fn replace_backslashes(path: &Vec<u8>) -> (r: Vec<u8>)
    ensures
        r@ == with_slashes(path@),
{
    let mut r: Vec<u8> = Vec::new();
    let mut i: usize = 0;
    while i < path.len()
        invariant
            0 <= i <= path@.len(),
            r@ == with_slashes(path@).take(i as int),
        decreases path@.len() - i,
    {
        let c = path[i];
        if c == 92 {
            r.push(47);
        } else {
            r.push(c);
        }
        assert(r@ == with_slashes(path@).take(i + 1));
        i = i + 1;
    }
    assert(r@ == with_slashes(path@));
    r
}

/// Return whether `pattern` occurs in `s` at index `at`.
fn occurs_at(s: &Vec<u8>, pattern: &Vec<u8>, at: usize) -> (r: bool)
    requires
        at <= s@.len(),
    ensures
        r == (s@.len() - at >= pattern@.len() && s@.skip(at as int).take(pattern@.len() as int) == pattern@),
{
    let n = s.len();
    if n - at < pattern.len() {
        return false;
    }
    let mut k: usize = 0;
    while k < pattern.len()
        invariant
            n == s@.len(),
            0 <= k <= pattern@.len(),
            at + pattern@.len() <= s@.len(),
            forall|j: int| 0 <= j < k ==> s@[at + j] == pattern@[j],
        decreases pattern@.len() - k,
    {
        if s[at + k] != pattern[k] {
            assert(s@.skip(at as int).take(pattern@.len() as int)[k as int] != pattern@[k as int]);
            return false;
        }
        k = k + 1;
    }
    assert(s@.skip(at as int).take(pattern@.len() as int) == pattern@);
    true
}

/// Return the text with every occurrence of `pattern` removed.
pub fn remove_occurrences(s: &Vec<u8>, pattern: &Vec<u8>) -> (r: Vec<u8>)
    requires
        pattern@.len() > 0,
    ensures
        r@ == remove_all(s@, pattern@),
{
    let mut r: Vec<u8> = Vec::new();
    let mut i: usize = 0;
    assert(s@.skip(0) == s@);
    while i < s.len()
        invariant
            0 <= i <= s@.len(),
            pattern@.len() > 0,
            r@ + remove_all(s@.skip(i as int), pattern@) == remove_all(s@, pattern@),
        decreases s@.len() - i,
    {
        let ghost rest = s@.skip(i as int);
        if occurs_at(s, pattern, i) {
            proof {
                assert(rest.skip(pattern@.len() as int) == s@.skip(i + pattern@.len()));
            }
            i = i + pattern.len();
        } else {
            let c = s[i];
            proof {
                assert(rest.drop_first() == s@.skip(i + 1));
                assert(rest[0] == c);
                assert(r@.push(c) + remove_all(s@.skip(i + 1), pattern@) == r@ + (seq![c] + remove_all(
                    s@.skip(i + 1),
                    pattern@,
                )));
            }
            r.push(c);
            i = i + 1;
        }
    }
    assert(s@.skip(i as int).len() == 0);
    assert(r@ + remove_all(s@.skip(i as int), pattern@) == r@);
    r
}

/// Return the part of the path before its first dot.
pub fn cut_at_first_dot(path: &Vec<u8>) -> (r: Vec<u8>)
    ensures
        r@ == before_first_dot(path@),
{
    let mut r: Vec<u8> = Vec::new();
    let mut i: usize = 0;
    while i < path.len()
        invariant
            0 <= i <= path@.len(),
            r@ == path@.take(i as int),
            forall|j: int| 0 <= j < i ==> path@[j] != 46,
        decreases path@.len() - i,
    {
        if path[i] == 46 {
            proof {
                let k = choose|k: int| 0 <= k < path@.len() && path@[k] == 46 && forall|j: int| 0 <= j < k ==> path@[j] != 46;
                if k < i {
                    assert(path@[k] != 46);
                } else if k > i {
                    assert(path@[i as int] != 46);
                }
            }
            return r;
        }
        r.push(path[i]);
        assert(r@ == path@.take(i + 1));
        i = i + 1;
    }
    assert(r@ == path@);
    r
}

/// Return the name of the sheet a data file describes.
pub fn data_sheet_name(path: &Vec<u8>) -> (r: Vec<u8>)
    ensures
        r@ == sheet_name_of_data(path@),
{
    let ending: Vec<u8> = vec![46u8, 97, 115, 101, 112, 114, 105, 116, 101, 46, 106, 115, 111, 110];
    assert(ending@ == data_ending());
    let slashed = replace_backslashes(path);
    remove_occurrences(&slashed, &ending)
}

/// Return the name of the sheet an image holds.
pub fn image_sheet_name(path: &Vec<u8>) -> (r: Vec<u8>)
    ensures
        r@ == sheet_name_of_image(path@),
{
    let slashed = replace_backslashes(path);
    cut_at_first_dot(&slashed)
}

/// Return whether two byte strings are equal.
fn same_bytes(a: &Vec<u8>, b: &Vec<u8>) -> (r: bool)
    ensures
        r == (a@ == b@),
{
    if a.len() != b.len() {
        return false;
    }
    let mut i: usize = 0;
    while i < a.len()
        invariant
            a@.len() == b@.len(),
            0 <= i <= a@.len(),
            forall|j: int| 0 <= j < i ==> a@[j] == b@[j],
        decreases a@.len() - i,
    {
        if a[i] != b[i] {
            return false;
        }
        i = i + 1;
    }
    assert(a@ == b@);
    true
}

/// The byte strings of the paths.
pub open spec fn views(paths: Seq<Vec<u8>>) -> Seq<Seq<u8>> {
    paths.map_values(|v: Vec<u8>| v@)
}

/// Whether `i` is the first image that holds the sheet the data file describes.
pub open spec fn is_first_image_for(data_path: Seq<u8>, image_paths: Seq<Seq<u8>>, i: int) -> bool {
    &&& 0 <= i < image_paths.len()
    &&& sheet_name_of_image(image_paths[i]) == sheet_name_of_data(data_path)
    &&& forall|j: int| 0 <= j < i ==> sheet_name_of_image(#[trigger] image_paths[j]) != sheet_name_of_data(data_path)
}

/// Whether some image holds the sheet the data file describes.
pub open spec fn has_image_for(data_path: Seq<u8>, image_paths: Seq<Seq<u8>>) -> bool {
    exists|i: int| 0 <= i < image_paths.len() && sheet_name_of_image(#[trigger] image_paths[i]) == sheet_name_of_data(data_path)
}

/// Return, for the data file, the first image that holds the sheet it describes.
pub fn find_image_for(data_path: &Vec<u8>, image_paths: &Vec<Vec<u8>>) -> (r: Option<usize>)
    ensures
        r is None <==> !has_image_for(data_path@, views(image_paths@)),
        r is Some ==> is_first_image_for(data_path@, views(image_paths@), r->0 as int),
{
    let ghost paths = views(image_paths@);
    let name = data_sheet_name(data_path);
    let mut i: usize = 0;
    while i < image_paths.len()
        invariant
            0 <= i <= image_paths@.len(),
            paths == views(image_paths@),
            name@ == sheet_name_of_data(data_path@),
            forall|j: int| 0 <= j < i ==> sheet_name_of_image(#[trigger] paths[j]) != sheet_name_of_data(data_path@),
        decreases image_paths@.len() - i,
    {
        let image_name = image_sheet_name(&image_paths[i]);
        assert(paths[i as int] == image_paths@[i as int]@);
        if same_bytes(&image_name, &name) {
            return Some(i);
        }
        i = i + 1;
    }
    None
}

/// The pairs of data file and image of the sheets, in the order of the data files; a data file
/// without an image is left out.
pub open spec fn sheet_pairs(data_paths: Seq<Seq<u8>>, image_paths: Seq<Seq<u8>>) -> Seq<(usize, usize)>
    decreases data_paths.len(),
{
    if data_paths.len() == 0 {
        seq![]
    } else {
        let rest = sheet_pairs(data_paths.drop_last(), image_paths);
        let d = data_paths.last();
        if has_image_for(d, image_paths) {
            rest.push(((data_paths.len() - 1) as usize, (choose|i: int| is_first_image_for(d, image_paths, i)) as usize))
        } else {
            rest
        }
    }
}

/// At most one image is the first one for a data file.
proof fn lemma_first_image_unique(d: Seq<u8>, image_paths: Seq<Seq<u8>>, i: int, k: int)
    requires
        is_first_image_for(d, image_paths, i),
        is_first_image_for(d, image_paths, k),
    ensures
        i == k,
{
    if i < k {
        assert(sheet_name_of_image(image_paths[i]) != sheet_name_of_data(d));
    } else if k < i {
        assert(sheet_name_of_image(image_paths[k]) != sheet_name_of_data(d));
    }
}

/// A data file with an image of its sheet has a first such image.
proof fn lemma_first_image_exists(d: Seq<u8>, image_paths: Seq<Seq<u8>>, k: int)
    requires
        0 <= k <= image_paths.len(),
        forall|j: int| 0 <= j < k ==> sheet_name_of_image(#[trigger] image_paths[j]) != sheet_name_of_data(d),
        exists|j: int| k <= j < image_paths.len() && sheet_name_of_image(#[trigger] image_paths[j]) == sheet_name_of_data(d),
    ensures
        exists|i: int| is_first_image_for(d, image_paths, i),
    decreases image_paths.len() - k,
{
    if sheet_name_of_image(image_paths[k]) == sheet_name_of_data(d) {
        assert(is_first_image_for(d, image_paths, k));
    } else {
        lemma_first_image_exists(d, image_paths, k + 1);
    }
}

/// The pairs only name data files that exist, each with the first image of its sheet.
pub proof fn lemma_sheet_pairs_in_range(data_paths: Seq<Seq<u8>>, image_paths: Seq<Seq<u8>>)
    requires
        data_paths.len() <= usize::MAX,
        image_paths.len() <= usize::MAX,
    ensures
        forall|k: int|
            0 <= k < sheet_pairs(data_paths, image_paths).len() ==> (#[trigger] sheet_pairs(data_paths, image_paths)[k]).0
                < data_paths.len() && is_first_image_for(
                data_paths[sheet_pairs(data_paths, image_paths)[k].0 as int],
                image_paths,
                sheet_pairs(data_paths, image_paths)[k].1 as int,
            ),
    decreases data_paths.len(),
{
    if data_paths.len() > 0 {
        let rest = data_paths.drop_last();
        lemma_sheet_pairs_in_range(rest, image_paths);
        let d = data_paths.last();
        let s = sheet_pairs(data_paths, image_paths);
        let r = sheet_pairs(rest, image_paths);
        if has_image_for(d, image_paths) {
            lemma_first_image_exists(d, image_paths, 0);
            let i = choose|i: int| is_first_image_for(d, image_paths, i);
            assert(s == r.push(((data_paths.len() - 1) as usize, i as usize)));
        } else {
            assert(s == r);
        }
        assert forall|k: int| 0 <= k < s.len() implies (#[trigger] s[k]).0 < data_paths.len() && is_first_image_for(
            data_paths[s[k].0 as int],
            image_paths,
            s[k].1 as int,
        ) by {
            if k < r.len() {
                assert(s[k] == r[k]);
                assert(r[k].0 < rest.len() && is_first_image_for(rest[r[k].0 as int], image_paths, r[k].1 as int));
                assert(data_paths[r[k].0 as int] == rest[r[k].0 as int]);
            } else {
                assert(has_image_for(d, image_paths));
                lemma_first_image_exists(d, image_paths, 0);
                let i = choose|i: int| is_first_image_for(d, image_paths, i);
                assert(is_first_image_for(d, image_paths, i));
                assert(s[k] == ((data_paths.len() - 1) as usize, i as usize));
                assert(s[k].1 as int == i);
                assert(s[k].0 as int == data_paths.len() - 1);
                assert(data_paths[s[k].0 as int] == d);
            }
        }
    }
}

/// Pair every data file with the first image of the same sheet name, in the order of the data
/// files; a data file without an image is left out.
pub fn pair_sheets(data_paths: &Vec<Vec<u8>>, image_paths: &Vec<Vec<u8>>) -> (r: Vec<(usize, usize)>)
    ensures
        r@ == sheet_pairs(views(data_paths@), views(image_paths@)),
{
    let ghost dv = views(data_paths@);
    let ghost iv = views(image_paths@);
    let mut pairs: Vec<(usize, usize)> = Vec::new();
    let mut d: usize = 0;
    while d < data_paths.len()
        invariant
            0 <= d <= data_paths@.len(),
            dv == views(data_paths@),
            iv == views(image_paths@),
            pairs@ == sheet_pairs(dv.take(d as int), iv),
        decreases data_paths@.len() - d,
    {
        let found = find_image_for(&data_paths[d], image_paths);
        proof {
            let next = dv.take(d + 1);
            assert(next.drop_last() == dv.take(d as int));
            assert(next.last() == data_paths@[d as int]@);
        }
        match found {
            Some(i) => {
                proof {
                    let dp = data_paths@[d as int]@;
                    let c = choose|k: int| is_first_image_for(dp, iv, k);
                    lemma_first_image_unique(dp, iv, c, i as int);
                }
                pairs.push((d, i));
            },
            None => {},
        }
        d = d + 1;
    }
    assert(dv.take(dv.len() as int) == dv);
    pairs
}

} // verus!

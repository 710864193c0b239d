//! Configuration discovery: the upward search for the project
//! configuration file, from the working directory toward the
//! filesystem root.
//!
//! The search itself is pure: a directory is a list of path components,
//! and the directories that hold a configuration file are given as
//! plain values.  The caller that walks a real filesystem checks one
//! candidate directory after the other, nearest first, exactly as
//! [`discover_in`] does over its model.

use vstd::prelude::*;

verus! {

/// An absolute directory, as the list of its path components from the
/// filesystem root; the root itself is the empty list.
pub struct DirPath {
    pub components: Vec<String>,
}

impl View for DirPath {
    type V = Seq<Seq<char>>;

    open spec fn view(&self) -> Seq<Seq<char>> {
        self.components@.map_values(|s: String| s@)
    }
}

/// One directory that holds a configuration file, with that file's
/// contents.
pub struct FsFile {
    pub dir: DirPath,
    pub contents: String,
}

/// A located configuration source: the directory the file was found
/// in and its raw contents.  Only constructed when the search found a
/// file; "not found" is a failure outcome, not a value of this type.
pub struct ConfigFile {
    pub dir: DirPath,
    pub contents: String,
}

/// Whether some listed file lies in directory `d`.
pub open spec fn dir_has_file(files: Seq<FsFile>, d: Seq<Seq<char>>) -> bool {
    exists|k: int| 0 <= k < files.len() && files[k].dir@ == d
}

/// The first listed file lying in directory `d`, or -1 when there is
/// none.
pub open spec fn first_file_in(files: Seq<FsFile>, d: Seq<Seq<char>>) -> int
    decreases files.len(),
{
    if files.len() == 0 {
        -1
    } else if files[0].dir@ == d {
        0
    } else {
        let r = first_file_in(files.drop_first(), d);
        if r < 0 {
            -1
        } else {
            1 + r
        }
    }
}

/// The number of components of the nearest ancestor of `start` (the
/// start directory included) that holds a file, searching from `n`
/// components downward; or -1 when none up to that depth does.
pub open spec fn nearest_dir(files: Seq<FsFile>, start: Seq<Seq<char>>, n: int) -> int
    decreases n + 1,
{
    if n < 0 {
        -1
    } else if dir_has_file(files, start.take(n)) {
        n
    } else {
        nearest_dir(files, start, n - 1)
    }
}

pub proof fn lemma_nearest_dir(files: Seq<FsFile>, start: Seq<Seq<char>>, n: int)
    ensures
        nearest_dir(files, start, n) == -1 ==> forall|m: int|
            0 <= m <= n ==> !dir_has_file(files, start.take(m)),
        nearest_dir(files, start, n) >= 0 ==> {
            let h = nearest_dir(files, start, n);
            &&& h <= n
            &&& dir_has_file(files, start.take(h))
            &&& forall|m: int| h < m <= n ==> !dir_has_file(files, start.take(m))
        },
    decreases n + 1,
{
    if n < 0 {
    } else if dir_has_file(files, start.take(n)) {
    } else {
        lemma_nearest_dir(files, start, n - 1);
    }
}

/// Whether the first `n` components of `d` and `start` agree and `d`
/// has exactly `n` components, that is, `d` is the depth-`n` ancestor
/// of `start`.
fn is_prefix_dir(d: &DirPath, start: &DirPath, n: usize) -> (r: bool)
    requires
        n <= start@.len(),
    ensures
        r == (d@ == start@.take(n as int)),
{
    if d.components.len() != n {
        assert(d@.len() == d.components@.len());
        assert(d@ != start@.take(n as int));
        return false;
    }
    let mut i: usize = 0;
    while i < n
        invariant
            i <= n,
            n <= start@.len(),
            d@.len() == n,
            forall|j: int| 0 <= j < i ==> d@[j] == start@[j],
        decreases n - i,
    {
        if !d.components[i].eq(&start.components[i]) {
            assert(d@[i as int] == d.components@[i as int]@);
            assert(start@[i as int] == start.components@[i as int]@);
            assert(d@ != start@.take(n as int));
            return false;
        }
        assert(d@[i as int] == d.components@[i as int]@);
        assert(start@[i as int] == start.components@[i as int]@);
        i = i + 1;
    }
    assert(d@ =~= start@.take(n as int));
    true
}

/// The first listed file lying in the depth-`n` ancestor of `start`.
fn find_file_at(files: &Vec<FsFile>, start: &DirPath, n: usize) -> (r: Option<usize>)
    requires
        n <= start@.len(),
    ensures
        ({
            let d = start@.take(n as int);
            match r {
                Some(k) => k < files@.len() && first_file_in(files@, d) == k && files@[
                    k as int
                ].dir@ == d,
                None => !dir_has_file(files@, d) && first_file_in(files@, d) == -1,
            }
        }),
{
    let ghost d = start@.take(n as int);
    assert(files@.skip(0) =~= files@);
    let mut i: usize = 0;
    loop
        invariant
            i <= files@.len(),
            n <= start@.len(),
            d == start@.take(n as int),
            forall|j: int| 0 <= j < i ==> files@[j].dir@ != d,
            first_file_in(files@, d) == (if first_file_in(files@.skip(i as int), d) < 0 {
                -1int
            } else {
                i + first_file_in(files@.skip(i as int), d)
            }),
        decreases files@.len() - i,
    {
        if i == files.len() {
            assert(files@.skip(i as int).len() == 0);
            assert(!dir_has_file(files@, d));
            return None;
        }
        let hit = is_prefix_dir(&files[i].dir, start, n);
        assert(files@.skip(i as int)[0] == files@[i as int]);
        if hit {
            assert(first_file_in(files@.skip(i as int), d) == 0);
            return Some(i);
        }
        assert(files@.skip(i as int).drop_first() =~= files@.skip(i as int + 1));
        i = i + 1;
    }
}

/// The depth-`n` ancestor of `start`, as an owned directory.
fn ancestor_of(start: &DirPath, n: usize) -> (r: DirPath)
    requires
        n <= start@.len(),
    ensures
        r@ == start@.take(n as int),
{
    let mut components: Vec<String> = Vec::new();
    let mut i: usize = 0;
    while i < n
        invariant
            i <= n,
            n <= start@.len(),
            start@.len() == start.components@.len(),
            components@.len() == i,
            forall|j: int| 0 <= j < i ==> components@[j]@ == start@[j],
        decreases n - i,
    {
        components.push(start.components[i].clone());
        assert(start@[i as int] == start.components@[i as int]@);
        i = i + 1;
    }
    let r = DirPath { components };
    assert(r@ =~= start@.take(n as int));
    r
}

/// Searches upward from `start` for a configuration file among
/// `files`: the start directory first, then parent after parent up to
/// the filesystem root.  Returns the file of the nearest directory
/// that holds one, or nothing when no ancestor does.
pub fn discover_in(start: &DirPath, files: &Vec<FsFile>) -> (r: Option<ConfigFile>)
    ensures
        ({
            let h = nearest_dir(files@, start@, start@.len() as int);
            match r {
                Some(cf) => {
                    // The nearest ancestor holding a file wins, the
                    // start directory included.
                    &&& h >= 0
                    &&& cf.dir@ == start@.take(h)
                    &&& dir_has_file(files@, cf.dir@)
                    &&& forall|m: int|
                        h < m <= start@.len() ==> !dir_has_file(files@, start@.take(m))
                    // The contents are those of the first listed file
                    // in that directory.
                    &&& first_file_in(files@, cf.dir@) >= 0
                    &&& cf.contents@ == files@[first_file_in(files@, cf.dir@)].contents@
                },
                None => {
                    // No ancestor of the start directory holds a file.
                    &&& h == -1
                    &&& forall|m: int|
                        0 <= m <= start@.len() ==> !dir_has_file(files@, start@.take(m))
                },
            }
        }),
{
    proof {
        lemma_nearest_dir(files@, start@, start@.len() as int);
    }
    let mut n: usize = start.components.len();
    assert(start@.len() == start.components@.len());
    loop
        invariant
            n <= start@.len(),
            start@.len() == start.components@.len(),
            nearest_dir(files@, start@, start@.len() as int) == nearest_dir(
                files@,
                start@,
                n as int,
            ),
        decreases n,
    {
        match find_file_at(files, start, n) {
            Some(k) => {
                let dir = ancestor_of(start, n);
                let contents = files[k].contents.clone();
                proof {
                    assert(files@[k as int].dir@ == start@.take(n as int));
                    assert(dir_has_file(files@, start@.take(n as int)));
                    assert(nearest_dir(files@, start@, n as int) == n);
                    lemma_nearest_dir(files@, start@, start@.len() as int);
                }
                return Some(ConfigFile { dir, contents });
            },
            None => {
                assert(nearest_dir(files@, start@, n as int) == nearest_dir(
                    files@,
                    start@,
                    n - 1,
                ));
            },
        }
        if n == 0 {
            proof {
                assert(nearest_dir(files@, start@, -1) == -1);
                lemma_nearest_dir(files@, start@, start@.len() as int);
            }
            return None;
        }
        n = n - 1;
    }
}

} // verus!

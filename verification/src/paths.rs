//! Paths as texts.
use vstd::prelude::*;

use crate::scan::chars_of;

verus! {

/// Whether a path starts at the root.
pub open spec fn absolute(path: Seq<char>) -> bool {
    path.len() > 0 && path[0] == '/'
}

/// A name below a directory: an absolute name stands alone, and one separator stands between the
/// two where the directory is not empty and does not end with one.
pub open spec fn joined(dir: Seq<char>, name: Seq<char>) -> Seq<char> {
    if absolute(name) {
        name
    } else if dir.len() == 0 || dir.last() == '/' {
        dir + name
    } else {
        dir.push('/') + name
    }
}

/// Whether a path starts at the root.
pub fn is_absolute(path: &str) -> (r: bool)
    ensures
        r == absolute(path@),
{
    let chars = chars_of(path);
    chars.len() > 0 && chars[0] == '/'
}

/// A name below a directory.
pub fn join(dir: &str, name: &str) -> (path: String)
    ensures
        path@ == joined(dir@, name@),
{
    if is_absolute(name) {
        return name.to_owned();
    }
    let chars = chars_of(dir);
    let mut path = dir.to_owned();
    if chars.len() > 0 && chars[chars.len() - 1] != '/' {
        path.push('/');
    }
    path.append(name);
    path
}

/// A relative name below a directory is the directory, a separator and the name, with one
/// separator at the seam; an absolute name is itself, and so is a name below nothing.
pub proof fn a_joined_path_is_the_two(dir: Seq<char>, name: Seq<char>)
    ensures
        ({
            let path = joined(dir, name);
            let seam = path.len() - name.len();
            &&& path.len() >= name.len() && path.skip(seam) == name
            &&& name.len() > 0 && name[0] == '/' ==> path == name
            &&& dir.len() == 0 ==> path == name
            &&& dir.len() > 0 && !(name.len() > 0 && name[0] == '/') ==> {
                &&& path.len() > dir.len() || name.len() == 0
                &&& dir.len() <= path.len() && path.take(dir.len() as int) == dir
                &&& seam > 0 && path[seam - 1] == '/'
                &&& seam <= dir.len() + 1
                &&& dir.last() == '/' ==> seam == dir.len()
            }
        }),
{
    let path = joined(dir, name);
    assert(path.skip(path.len() - name.len()) =~= name);
    if dir.len() == 0 {
        assert(path =~= name);
    } else if !absolute(name) {
        assert(path.take(dir.len() as int) =~= dir);
    }
}

} // verus!

//! Paths as the text they display as, joined the way this platform joins them.

use vstd::prelude::*;

verus! {

/// Whether `c` separates the parts of a path on some platform: `/` everywhere, `\` on Windows.
pub open spec fn is_separator(c: char) -> bool {
    c == '/' || c == '\\'
}

/// Whether `name` is a single plain file name: not empty, with no separator or drive colon, and
/// neither `.` nor `..`, which a join may resolve rather than append.
pub open spec fn plain_name(name: Seq<char>) -> bool {
    &&& name.len() > 0
    &&& forall|i: int| 0 <= i < name.len() ==> !is_separator(name[i]) && name[i] != ':'
    &&& name != seq!['.']
    &&& name != seq!['.', '.']
}

/// Whether `base` opens with two separators: on Windows a network share, a device or a verbatim
/// path, whose joins and parents follow rules of their own.
pub open spec fn special_base(base: Seq<char>) -> bool {
    base.len() >= 2 && is_separator(base[0]) && is_separator(base[1])
}

/// Whether `base` is a plain folder path: not empty, not special, and not ending in a
/// separator, a dot or a drive colon.
pub open spec fn simple_base(base: Seq<char>) -> bool {
    &&& base.len() > 0
    &&& !special_base(base)
    &&& !is_separator(base.last())
    &&& base.last() != '.'
    &&& base.last() != ':'
}

/// Whether `joined` is `name` put inside `base`: right after it, or after a separator.
pub open spec fn joined_path(base: Seq<char>, name: Seq<char>, joined: Seq<char>) -> bool {
    ||| joined == base + name
    ||| joined == base + seq!['/'] + name
    ||| joined == base + seq!['\\'] + name
}

/// Whether `joined` is `base`, then exactly one separator, then `name`.
pub open spec fn separated(base: Seq<char>, name: Seq<char>, joined: Seq<char>) -> bool {
    &&& joined.len() == base.len() + 1 + name.len()
    &&& joined.take(base.len() as int) == base
    &&& is_separator(joined[base.len() as int])
    &&& joined.skip(base.len() + 1int) == name
}

/// `Path::join` (that is, `PathBuf::push`), displayed. As `push` documents it: a plain name
/// onto an empty base is the name alone; onto a base that ends in `/` it follows at once; onto a
/// plain folder path one separator goes in between. Which separator that is depends on the platform (`/`, or `\` on Windows), so
/// the result is not named and the separator is not stated. For a base that opens with two
/// separators (a Windows share, device or verbatim path, which `push` may normalise) nothing is
/// stated.
#[verifier::external_body]
pub fn join_path(base: &str, name: &str) -> (r: String)
    requires
        plain_name(name@),
    ensures
        base@.len() == 0 ==> r@ == name@,
        !special_base(base@) ==> joined_path(base@, name@, r@),
        !special_base(base@) && base@.len() > 0 && base@.last() == '/' ==> r@ == base@ + name@,
        simple_base(base@) ==> separated(base@, name@, r@),
{
    std::path::Path::new(base).join(name).display().to_string()
}

/// `Path::parent`, displayed. Where a path's parent ends depends on the platform (`\` and drive
/// prefixes separate only on Windows), so the result is not named; what holds everywhere is
/// stated: there is none, or it is a front part of the path, shorter than the path.
#[verifier::external_body]
pub fn parent_path(path: &str) -> (r: Option<String>)
    ensures
        r matches Some(parent) ==> parent@.len() < path@.len() && parent@ == path@.take(
            parent@.len() as int,
        ),
{
    std::path::Path::new(path).parent().map(|parent| parent.display().to_string())
}

/// Whether `base` is a plain folder path.
pub fn is_simple_base(base: &str) -> (r: bool)
    ensures
        r == simple_base(base@),
{
    let n = base.unicode_len();
    if n == 0 {
        return false;
    }
    if n >= 2 {
        let a = base.get_char(0);
        let b = base.get_char(1);
        if (a == '/' || a == '\\') && (b == '/' || b == '\\') {
            return false;
        }
    }
    let last = base.get_char(n - 1);
    !(last == '/' || last == '\\' || last == '.' || last == ':')
}

/// The name of the folder the AppImage is kept in.
pub open spec fn home_folder_name() -> Seq<char> {
    "mamacine"@
}

/// The AppImage's name in its home.
pub open spec fn appimage_name() -> Seq<char> {
    "Mamá Cine.AppImage"@
}

/// Where the AppImage lives once adopted: a home no cleanup habit empties. Inside a plain
/// folder path, its own folder and then its name, each after one separator; the same under an
/// empty base or one that ends in `/`, with no separator added after the base.
pub fn stable_home(data_home: &str) -> (r: String)
    ensures
        simple_base(data_home@) ==> exists|folder: Seq<char>|
            separated(data_home@, home_folder_name(), folder) && separated(
                folder,
                appimage_name(),
                r@,
            ),
        data_home@.len() == 0 ==> separated(home_folder_name(), appimage_name(), r@),
        !special_base(data_home@) && data_home@.len() > 0 && data_home@.last() == '/' ==> separated(
            data_home@ + home_folder_name(),
            appimage_name(),
            r@,
        ),
{
    proof {
        reveal_strlit("mamacine");
        reveal_strlit("Mamá Cine.AppImage");
        assert("mamacine"@.len() == 8);
    }
    let folder = join_path(data_home, "mamacine");
    proof {
        let f = folder@;
        if simple_base(data_home@) {
            assert(f.last() == f[f.len() - 1]);
            assert(f.skip(data_home@.len() + 1int)[7] == 'e');
            assert(f.last() == 'e');
            if data_home@.len() == 1 {
                assert(f[0] == data_home@[0]);
            } else {
                assert(f[0] == f.take(data_home@.len() as int)[0]);
                assert(f[1] == f.take(data_home@.len() as int)[1]);
            }
            assert(simple_base(f));
        }
        if data_home@.len() == 0 {
            assert(simple_base(f));
        }
        if !special_base(data_home@) && data_home@.len() > 0 && data_home@.last() == '/' {
            assert(f == data_home@ + "mamacine"@);
            assert(f.last() == 'e');
            if data_home@.len() == 1 {
                assert(f[1] == 'm');
            } else {
                assert(f[0] == data_home@[0]);
                assert(f[1] == data_home@[1]);
            }
            assert(simple_base(f));
        }
    }
    let name = "Mamá Cine.AppImage";
    proof {
        reveal_strlit("Mamá Cine.AppImage");
        assert(name@.len() == 18);
        assert(name@ != seq!['.']);
        assert(name@ != seq!['.', '.']);
    }
    let r = join_path(folder.as_str(), name);
    proof {
        if simple_base(data_home@) {
            assert(separated(data_home@, home_folder_name(), folder@));
        }
    }
    r
}

} // verus!

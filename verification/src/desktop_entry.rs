//! The menu entry that makes an AppImage findable: the one Tauri bundled, pointed at the
//! AppImage itself.

use crate::supervisor::{lines_in, lines_of, lines_view};
use crate::words::{joined3, starts_with_text, trim_text, trimmed};
use vstd::prelude::*;

verus! {

/// One line of the bundled entry, retargeted: `Exec` names the AppImage, quoted because her
/// name in the path has a space; `Icon` names the installed file; an empty `Categories` becomes
/// the film shelf.
pub open spec fn retargeted(line: Seq<char>, appimage: Seq<char>, icon: Seq<char>) -> Seq<char> {
    if line.len() >= 5 && line.take(5) == "Exec="@ {
        "Exec=\""@ + appimage + "\""@
    } else if line.len() >= 5 && line.take(5) == "Icon="@ {
        "Icon="@ + icon
    } else if trimmed(line) == "Categories="@ {
        "Categories=AudioVideo;Video;"@
    } else {
        line
    }
}

/// Lines joined with line feeds between them.
pub open spec fn joined_lines(lines: Seq<Seq<char>>) -> Seq<char>
    decreases lines.len(),
{
    if lines.len() == 0 {
        Seq::empty()
    } else if lines.len() == 1 {
        lines[0]
    } else {
        joined_lines(lines.drop_last()) + "\n"@ + lines.last()
    }
}

/// The bundled entry with every line retargeted, ending in a line feed.
pub open spec fn entry_text(template: Seq<char>, appimage: Seq<char>, icon: Seq<char>) -> Seq<char> {
    joined_lines(lines_of(template).map_values(|line: Seq<char>| retargeted(line, appimage, icon)))
        + "\n"@
}

fn retarget(line: &str, appimage: &str, icon: &str) -> (r: String)
    ensures
        r@ == retargeted(line@, appimage@, icon@),
{
    proof {
        reveal_strlit("Exec=");
        reveal_strlit("Icon=");
    }
    if starts_with_text(line, "Exec=") {
        joined3("Exec=\"", appimage, "\"")
    } else if starts_with_text(line, "Icon=") {
        crate::words::joined2("Icon=", icon)
    } else {
        let plain = trim_text(line);
        if crate::words::same_text(plain.as_str(), "Categories=") {
            String::from_str("Categories=AudioVideo;Video;")
        } else {
            String::from_str(line)
        }
    }
}

/// The bundled entry, retargeted at the AppImage and the installed icon.
pub fn entry_for(template: &str, appimage: &str, icon: &str) -> (r: String)
    ensures
        r@ == entry_text(template@, appimage@, icon@),
{
    let lines = lines_in(template);
    let ghost wanted = lines_of(template@).map_values(|line: Seq<char>| retargeted(line, appimage@, icon@));
    let n = lines.len();
    let mut entry = String::new();
    let mut i: usize = 0;
    while i < n
        invariant
            n == lines@.len(),
            lines_view(lines@) == lines_of(template@),
            wanted == lines_of(template@).map_values(|line: Seq<char>| retargeted(line, appimage@, icon@)),
            i <= n,
            entry@ == joined_lines(wanted.take(i as int)),
        decreases n - i,
    {
        let line = retarget(lines[i].as_str(), appimage, icon);
        assert(lines[i as int]@ == lines_of(template@)[i as int]);
        assert(wanted.take(i + 1).drop_last() =~= wanted.take(i as int));
        if i > 0 {
            entry.append("\n");
        }
        entry.append(line.as_str());
        i = i + 1;
    }
    assert(wanted.take(n as int) =~= wanted);
    entry.append("\n");
    entry
}

} // verus!

//! Starting the client when the user logs in: the registry value on
//! Windows, the `.desktop` file under the XDG autostart directory on Linux.

use vstd::prelude::*;
use vstd::string::StrSliceExecFns;
use vstd::string::StringExecFns;

verus! {

broadcast use vstd::string::group_string_axioms;

/// Registry key, under the current user, that lists programs to run at logon.
pub const REG_PATH: &'static str = "Software\\Microsoft\\Windows\\CurrentVersion\\Run";

/// Name of the client's value under `REG_PATH`.
pub const REG_NAME: &'static str = "neMAX";

/// File name of the autostart entry on Linux.
pub const DESKTOP_FILE_NAME: &'static str = "nemax.desktop";

/// Start of the autostart entry, up to the program path.
pub const DESKTOP_FILE_HEAD: &'static str = "[Desktop Entry]\nType=Application\nName=neMAX\nComment=Lightweight max.ru client\nExec=\"";

/// End of the autostart entry, after the program path.
pub const DESKTOP_FILE_TAIL: &'static str = "\" --minimized\nIcon=nemax\nTerminal=false\nCategories=Network;\nStartupNotify=false\n";

/// `base` extended by `comp` as a Unix path: an absolute `comp` replaces
/// `base`; otherwise a `/` goes between them unless `base` is empty or
/// already ends with one.
pub open spec fn join_path_spec(base: Seq<char>, comp: Seq<char>) -> Seq<char> {
    if comp.len() > 0 && comp[0] == '/' {
        comp
    } else if base.len() > 0 && base.last() != '/' {
        base + seq!['/'] + comp
    } else {
        base + comp
    }
}

/// The autostart directory: `autostart` under `$XDG_CONFIG_HOME`, or else
/// under `$HOME/.config`; none when neither variable is set.
pub open spec fn autostart_dir_spec(xdg: Option<Seq<char>>, home: Option<Seq<char>>) -> Option<Seq<char>> {
    match xdg {
        Some(x) => Some(join_path_spec(x, "autostart"@)),
        None => match home {
            Some(h) => Some(join_path_spec(join_path_spec(h, ".config"@), "autostart"@)),
            None => None,
        },
    }
}

/// The path of the autostart entry, when there is an autostart directory.
pub open spec fn desktop_file_path_spec(xdg: Option<Seq<char>>, home: Option<Seq<char>>) -> Option<Seq<char>> {
    match autostart_dir_spec(xdg, home) {
        Some(d) => Some(join_path_spec(d, DESKTOP_FILE_NAME@)),
        None => None,
    }
}

/// The view of an optional string slice.
pub open spec fn opt_view(s: Option<&str>) -> Option<Seq<char>> {
    match s {
        Some(x) => Some(x@),
        None => None,
    }
}

/// The view of an optional string.
pub open spec fn opt_string_view(s: Option<String>) -> Option<Seq<char>> {
    match s {
        Some(x) => Some(x@),
        None => None,
    }
}

/// The command line that the registry value holds: the quoted program path,
/// then `--minimized`.
pub open spec fn autostart_command_text(exe_path: Seq<char>) -> Seq<char> {
    "\""@ + exe_path + "\" --minimized"@
}

/// The autostart entry that runs the program at `exe_path` minimized.
pub open spec fn desktop_file_text(exe_path: Seq<char>) -> Seq<char> {
    DESKTOP_FILE_HEAD@ + exe_path + DESKTOP_FILE_TAIL@
}

/// `base` extended by `comp` as a Unix path.
pub fn join_path(base: &str, comp: &str) -> (r: String)
    ensures
        r@ == join_path_spec(base@, comp@),
{
    let comp_len = comp.unicode_len();
    if comp_len > 0 && comp.get_char(0) == '/' {
        return String::from_str(comp);
    }
    let base_len = base.unicode_len();
    let mut r = String::from_str(base);
    if base_len > 0 && base.get_char(base_len - 1) != '/' {
        r.append("/");
    }
    r.append(comp);
    proof {
        reveal_strlit("/");
    }
    r
}

/// The autostart directory from the values of `XDG_CONFIG_HOME` and `HOME`.
pub fn autostart_dir(xdg_config_home: Option<&str>, home: Option<&str>) -> (r: Option<String>)
    ensures
        opt_string_view(r) == autostart_dir_spec(opt_view(xdg_config_home), opt_view(home)),
{
    match xdg_config_home {
        Some(x) => Some(join_path(x, "autostart")),
        None => match home {
            Some(h) => {
                let config = join_path(h, ".config");
                Some(join_path(config.as_str(), "autostart"))
            },
            None => None,
        },
    }
}

/// The path of the autostart entry from the values of `XDG_CONFIG_HOME` and
/// `HOME`.
pub fn desktop_file_path(xdg_config_home: Option<&str>, home: Option<&str>) -> (r: Option<String>)
    ensures
        opt_string_view(r) == desktop_file_path_spec(opt_view(xdg_config_home), opt_view(home)),
{
    match autostart_dir(xdg_config_home, home) {
        Some(d) => Some(join_path(d.as_str(), DESKTOP_FILE_NAME)),
        None => None,
    }
}

/// The autostart entry for the program at `exe_path`.
pub fn generate_desktop_file(exe_path: &str) -> (r: String)
    ensures
        r@ == desktop_file_text(exe_path@),
{
    let mut r = String::from_str(DESKTOP_FILE_HEAD);
    r.append(exe_path);
    r.append(DESKTOP_FILE_TAIL);
    r
}

/// The registry value for the program at `exe_path`.
pub fn autostart_command(exe_path: &str) -> (r: String)
    ensures
        r@ == autostart_command_text(exe_path@),
{
    let mut r = String::from_str("\"");
    r.append(exe_path);
    r.append("\" --minimized");
    r
}

/// The permission bits of the autostart entry: `mode` with read and execute
/// for everyone and write for the owner added.
pub fn executable_mode(mode: u32) -> (r: u32)
    ensures
        r == mode | 0o755u32,
{
    mode | 0o755u32
}

/// The registry value runs the quoted program path with `--minimized`.
pub proof fn lemma_autostart_command_layout(exe_path: Seq<char>)
    ensures
        autostart_command_text(exe_path) == seq!['"'] + exe_path + "\" --minimized"@,
        autostart_command_text(exe_path).len() == exe_path.len() + 14,
{
    reveal_strlit("\"");
    reveal_strlit("\" --minimized");
    assert("\""@ =~= seq!['"']);
}

/// The autostart entry is a `[Desktop Entry]` of an application whose `Exec`
/// line runs the quoted program path with `--minimized`.
pub proof fn lemma_desktop_file_layout(exe_path: Seq<char>)
    ensures
        desktop_file_text(exe_path) == "[Desktop Entry]\nType=Application\nName=neMAX\nComment=Lightweight max.ru client\n"@
            + "Exec=\""@ + exe_path + "\" --minimized\n"@
            + "Icon=nemax\nTerminal=false\nCategories=Network;\nStartupNotify=false\n"@,
{
    reveal_strlit("[Desktop Entry]\nType=Application\nName=neMAX\nComment=Lightweight max.ru client\n");
    reveal_strlit("Exec=\"");
    reveal_strlit("\" --minimized\n");
    reveal_strlit("Icon=nemax\nTerminal=false\nCategories=Network;\nStartupNotify=false\n");
    reveal_strlit("[Desktop Entry]\nType=Application\nName=neMAX\nComment=Lightweight max.ru client\nExec=\"");
    reveal_strlit("\" --minimized\nIcon=nemax\nTerminal=false\nCategories=Network;\nStartupNotify=false\n");
    assert(DESKTOP_FILE_HEAD@ =~= "[Desktop Entry]\nType=Application\nName=neMAX\nComment=Lightweight max.ru client\n"@
        + "Exec=\""@);
    assert(DESKTOP_FILE_TAIL@ =~= "\" --minimized\n"@
        + "Icon=nemax\nTerminal=false\nCategories=Network;\nStartupNotify=false\n"@);
    assert(desktop_file_text(exe_path) =~= "[Desktop Entry]\nType=Application\nName=neMAX\nComment=Lightweight max.ru client\n"@
        + "Exec=\""@ + exe_path + "\" --minimized\n"@
        + "Icon=nemax\nTerminal=false\nCategories=Network;\nStartupNotify=false\n"@);
}

/// Joining a relative component puts exactly one `/` between a non-empty
/// base and the component, and the result always ends with the component.
pub proof fn lemma_join_path(base: Seq<char>, comp: Seq<char>)
    ensures
        comp.len() > 0 && comp[0] != '/' && base.len() > 0 && base.last() != '/' ==> join_path_spec(
            base,
            comp,
        ) == base + seq!['/'] + comp,
        comp.len() > 0 && comp[0] != '/' && base.len() > 0 && base.last() == '/' ==> join_path_spec(
            base,
            comp,
        ) == base + comp,
        comp.len() > 0 && comp[0] == '/' ==> join_path_spec(base, comp) == comp,
        join_path_spec(base, comp).len() >= comp.len(),
        join_path_spec(base, comp).skip(join_path_spec(base, comp).len() - comp.len()) == comp,
{
    let r = join_path_spec(base, comp);
    if comp.len() > 0 && comp[0] == '/' {
        assert(r.skip(0) =~= comp);
    } else if base.len() > 0 && base.last() != '/' {
        assert(r.skip(r.len() - comp.len()) =~= comp);
    } else {
        assert(r.skip(r.len() - comp.len()) =~= comp);
    }
}

/// `XDG_CONFIG_HOME` wins over `HOME` when set; with neither there is no
/// autostart directory; the directory ends with `autostart` and the entry's
/// path with `nemax.desktop`.
pub proof fn lemma_autostart_dir_choice(
    xdg: Option<Seq<char>>,
    home1: Option<Seq<char>>,
    home2: Option<Seq<char>>,
)
    ensures
        xdg is Some ==> autostart_dir_spec(xdg, home1) == autostart_dir_spec(xdg, home2),
        autostart_dir_spec(xdg, home1) is None <==> (xdg is None && home1 is None),
        autostart_dir_spec(xdg, home1) matches Some(d) ==> d.skip(d.len() - 9) == "autostart"@,
        desktop_file_path_spec(xdg, home1) matches Some(f) ==> f.skip(f.len() - 13)
            == "nemax.desktop"@,
{
    reveal_strlit("autostart");
    reveal_strlit("nemax.desktop");
    match autostart_dir_spec(xdg, home1) {
        Some(d) => {
            match xdg {
                Some(x) => lemma_join_path(x, "autostart"@),
                None => lemma_join_path(join_path_spec(home1.unwrap(), ".config"@), "autostart"@),
            }
            lemma_join_path(d, DESKTOP_FILE_NAME@);
        },
        None => {},
    }
}

} // verus!

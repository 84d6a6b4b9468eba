//! The text of a freedesktop `.desktop` entry.
use vstd::prelude::*;
use crate::text::{
    append_chars, append_str, chars_of, contains_char, ends_with, join, join_chars, replace_char,
    replace_char_with, string_of, chars_of_all,
};

verus! {

/// What a desktop entry says of an app.
#[derive(Clone, Debug)]
pub struct DesktopEntryInput<'a> {
    pub name: &'a str,
    pub generic_name: Option<&'a str>,
    pub comment: Option<&'a str>,
    pub exec_path: &'a str,
    pub icon_name: &'a str,
    pub categories: &'a [String],
    pub terminal: bool,
}

/// `escape_value`: backslashes doubled, newlines written as `\n`.
pub open spec fn spec_escape_value(v: Seq<char>) -> Seq<char> {
    replace_char(replace_char(v, '\\', seq!['\\', '\\']), '\n', seq!['\\', 'n'])
}

pub fn escape_value(v: &str) -> (r: Vec<char>)
    ensures
        r@ == spec_escape_value(v@),
{
    let c = chars_of(v);
    let mut bs: Vec<char> = Vec::new();
    bs.push('\\');
    bs.push('\\');
    assert(bs@ =~= seq!['\\', '\\']);
    let mut nl: Vec<char> = Vec::new();
    nl.push('\\');
    nl.push('n');
    assert(nl@ =~= seq!['\\', 'n']);
    let once = replace_char_with(&c, '\\', &bs);
    replace_char_with(&once, '\n', &nl)
}

/// `quote_exec`: a path with a space is put in double quotes, with its double
/// quotes escaped.
pub open spec fn spec_quote_exec(p: Seq<char>) -> Seq<char> {
    if p.contains(' ') {
        seq!['"'] + replace_char(p, '"', seq!['\\', '"']) + seq!['"']
    } else {
        p
    }
}

pub fn quote_exec(p: &str) -> (r: Vec<char>)
    ensures
        r@ == spec_quote_exec(p@),
{
    let c = chars_of(p);
    if contains_char(&c, ' ') {
        let mut esc: Vec<char> = Vec::new();
        esc.push('\\');
        esc.push('"');
        assert(esc@ =~= seq!['\\', '"']);
        let mut r: Vec<char> = Vec::new();
        r.push('"');
        append_chars(&mut r, &replace_char_with(&c, '"', &esc));
        r.push('"');
        assert(r@ =~= seq!['"'] + replace_char(p@, '"', seq!['\\', '"']) + seq!['"']);
        r
    } else {
        c
    }
}

/// The `Categories` value: `Utility;` when none are given, else the categories
/// joined with `;` and ending with `;`.
pub open spec fn spec_categories(cats: Seq<Seq<char>>) -> Seq<char> {
    if cats.len() == 0 {
        "Utility;"@
    } else {
        let joined = join(cats, seq![';']);
        if ends_with(joined, seq![';']) {
            joined
        } else {
            joined.push(';')
        }
    }
}

pub open spec fn opt_line(key: Seq<char>, v: Option<Seq<char>>) -> Seq<char> {
    match v {
        Some(x) => key + spec_escape_value(x) + seq!['\n'],
        None => Seq::empty(),
    }
}

pub open spec fn opt_str(o: Option<&str>) -> Option<Seq<char>> {
    match o {
        Some(s) => Some(s@),
        None => None,
    }
}

/// The text of the desktop entry.
pub open spec fn spec_desktop_entry_text(
    name: Seq<char>,
    generic_name: Option<Seq<char>>,
    comment: Option<Seq<char>>,
    exec_path: Seq<char>,
    icon_name: Seq<char>,
    categories: Seq<Seq<char>>,
    terminal: bool,
) -> Seq<char> {
    spec_entry_head(name, generic_name, comment) + spec_entry_tail(
        exec_path,
        icon_name,
        categories,
        terminal,
    )
}

fn categories_text(cats: &[String]) -> (r: Vec<char>)
    ensures
        r@ == spec_categories(cats@.map_values(|s: String| s@)),
{
    if cats.len() == 0 {
        return chars_of("Utility;");
    }
    let mut cv: Vec<Vec<char>> = Vec::new();
    let mut i: usize = 0;
    while i < cats.len()
        invariant
            i <= cats.len(),
            cv.len() == i,
            forall|k: int| 0 <= k < i ==> #[trigger] cv@[k]@ == cats@[k]@,
        decreases cats.len() - i,
    {
        cv.push(chars_of(cats[i].as_str()));
        i = i + 1;
    }
    assert forall|k: int| 0 <= k < cats.len() implies #[trigger] cv.deep_view()[k] == cats@.map_values(
        |s: String| s@,
    )[k] by {
        crate::text::lemma_chars_deep_view(&cv@[k]);
    }
    assert(cv.deep_view() =~= cats@.map_values(|s: String| s@));
    let mut semi: Vec<char> = Vec::new();
    semi.push(';');
    assert(semi@ =~= seq![';']);
    let mut joined = join_chars(&cv, &semi);
    if !(joined.len() > 0 && joined[joined.len() - 1] == ';') {
        proof {
            if ends_with(joined@, seq![';']) {
                assert(joined@.skip(joined@.len() - 1)[0] == ';');
            }
        }
        joined.push(';');
    } else {
        assert(joined@.skip(joined@.len() - 1) =~= seq![';']);
    }
    joined
}

pub open spec fn spec_entry_head(
    name: Seq<char>,
    generic_name: Option<Seq<char>>,
    comment: Option<Seq<char>>,
) -> Seq<char> {
    "[Desktop Entry]\n"@ + "Type=Application\n"@ + "Name="@ + spec_escape_value(name) + seq!['\n']
        + opt_line("GenericName="@, generic_name) + opt_line("Comment="@, comment)
}

pub open spec fn spec_entry_tail(
    exec_path: Seq<char>,
    icon_name: Seq<char>,
    categories: Seq<Seq<char>>,
    terminal: bool,
) -> Seq<char> {
    "Exec="@ + spec_quote_exec(exec_path) + " %U\n"@ + "Icon="@ + spec_escape_value(icon_name)
        + seq!['\n'] + "Terminal="@ + (if terminal {
        "true"@
    } else {
        "false"@
    }) + seq!['\n'] + "Categories="@ + spec_categories(categories) + seq!['\n']
        + "StartupNotify=true\n"@
}

fn entry_head(input: &DesktopEntryInput) -> (r: Vec<char>)
    ensures
        r@ == spec_entry_head(input.name@, opt_str(input.generic_name), opt_str(input.comment)),
{
    let mut t: Vec<char> = Vec::new();
    append_str(&mut t, "[Desktop Entry]\n");
    append_str(&mut t, "Type=Application\n");
    append_str(&mut t, "Name=");
    append_chars(&mut t, &escape_value(input.name));
    t.push('\n');
    let ghost t1 = t@;
    match input.generic_name {
        Some(g) => {
            append_str(&mut t, "GenericName=");
            append_chars(&mut t, &escape_value(g));
            t.push('\n');
        },
        None => {},
    }
    assert(t@ =~= t1 + opt_line("GenericName="@, opt_str(input.generic_name)));
    let ghost t2 = t@;
    match input.comment {
        Some(c) => {
            append_str(&mut t, "Comment=");
            append_chars(&mut t, &escape_value(c));
            t.push('\n');
        },
        None => {},
    }
    assert(t@ =~= t2 + opt_line("Comment="@, opt_str(input.comment)));
    t
}

fn entry_tail(input: &DesktopEntryInput) -> (r: Vec<char>)
    ensures
        r@ == spec_entry_tail(
            input.exec_path@,
            input.icon_name@,
            input.categories@.map_values(|s: String| s@),
            input.terminal,
        ),
{
    let mut t: Vec<char> = Vec::new();
    append_str(&mut t, "Exec=");
    append_chars(&mut t, &quote_exec(input.exec_path));
    append_str(&mut t, " %U\n");
    append_str(&mut t, "Icon=");
    append_chars(&mut t, &escape_value(input.icon_name));
    t.push('\n');
    append_str(&mut t, "Terminal=");
    if input.terminal {
        append_str(&mut t, "true");
    } else {
        append_str(&mut t, "false");
    }
    t.push('\n');
    append_str(&mut t, "Categories=");
    append_chars(&mut t, &categories_text(input.categories));
    t.push('\n');
    append_str(&mut t, "StartupNotify=true\n");
    t
}

/// The text of the desktop entry for `input`.
pub fn desktop_entry_text(input: &DesktopEntryInput) -> (r: String)
    ensures
        r@ == spec_desktop_entry_text(
            input.name@,
            opt_str(input.generic_name),
            opt_str(input.comment),
            input.exec_path@,
            input.icon_name@,
            input.categories@.map_values(|s: String| s@),
            input.terminal,
        ),
{
    let mut t = entry_head(input);
    append_chars(&mut t, &entry_tail(input));
    let r = string_of(&t);
    assert(r@ =~= spec_desktop_entry_text(
        input.name@,
        opt_str(input.generic_name),
        opt_str(input.comment),
        input.exec_path@,
        input.icon_name@,
        input.categories@.map_values(|s: String| s@),
        input.terminal,
    ));
    r
}

} // verus!

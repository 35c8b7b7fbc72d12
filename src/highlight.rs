use vstd::prelude::*;

use crate::error::Error;

verus! {

/// The lines of `text`, each with its line ending, as 24-bit terminal escapes
/// of the syntax highlighting for files with `extension` (plain text when no
/// syntax has it) in theme `theme`; `None` when the theme is unknown or a line
/// fails to highlight.
pub uninterp spec fn highlighted_lines_of(text: Seq<char>, extension: Seq<char>, theme: Seq<char>) -> Option<Seq<Seq<char>>>;

/// Relies on syntect: `SyntaxSet::load_defaults_newlines`,
/// `ThemeSet::load_defaults`, `HighlightLines::highlight_line` over
/// `LinesWithEndings`, and `as_24_bit_terminal_escaped`.
#[verifier::external_body]
fn highlight_lines(text: &str, extension: &str, theme: &str) -> (r: Option<Vec<String>>)
    ensures
        match r {
            Some(v) => highlighted_lines_of(text@, extension@, theme@) == Some(v@.map_values(|s: String| s@)),
            None => highlighted_lines_of(text@, extension@, theme@) is None,
        },
{
    let ps = syntect::parsing::SyntaxSet::load_defaults_newlines();
    let ts = syntect::highlighting::ThemeSet::load_defaults();
    let syntax = ps.find_syntax_by_extension(extension).unwrap_or_else(|| ps.find_syntax_plain_text());
    let mut h = syntect::easy::HighlightLines::new(syntax, ts.themes.get(theme)?);
    let mut out = Vec::new();
    for line in syntect::util::LinesWithEndings::from(text) {
        let ranges = h.highlight_line(line, &ps).ok()?;
        out.push(syntect::util::as_24_bit_terminal_escaped(&ranges[..], false));
    }
    Some(out)
}

/// Each line followed by a newline.
pub open spec fn lines_joined(lines: Seq<Seq<char>>) -> Seq<char>
    decreases lines.len(),
{
    if lines.len() == 0 {
        seq![]
    } else {
        lines_joined(lines.drop_last()) + lines.last() + seq!['\n']
    }
}

/// The theme used when none is named.
pub open spec fn default_theme() -> Seq<char> {
    seq!['b', 'a', 's', 'e', '1', '6', '-', 'o', 'c', 'e', 'a', 'n', '.', 'd', 'a', 'r', 'k']
}

/// The highlighted form of `text` in theme `theme`: each highlighted line
/// followed by a newline.
pub open spec fn highlighted_text_of(text: Seq<char>, extension: Seq<char>, theme: Seq<char>) -> Result<Seq<char>, Error> {
    match highlighted_lines_of(text, extension, theme) {
        Some(lines) => Ok(lines_joined(lines)),
        None => Err(Error::Highlight),
    }
}

/// Highlights `text` as the syntax of files with `extension`, for a 24-bit
/// colour terminal, in `theme` or else in `base16-ocean.dark`.
pub fn highlight_text(text: &str, extension: &str, theme: Option<&str>) -> (r: Result<String, Error>)
    ensures
        ({
            let th = match theme {
                Some(t) => t@,
                None => default_theme(),
            };
            match r {
                Ok(t) => highlighted_text_of(text@, extension@, th) == Ok::<Seq<char>, Error>(t@),
                Err(e) => highlighted_text_of(text@, extension@, th) == Err::<Seq<char>, Error>(e),
            }
        }),
{
    let th = match theme {
        Some(t) => t,
        None => "base16-ocean.dark",
    };
    proof {
        reveal_strlit("base16-ocean.dark");
        assert(theme is None ==> th@ =~= default_theme());
    }
    let lines = match highlight_lines(text, extension, th) {
        Some(v) => v,
        None => return Err(Error::Highlight),
    };
    let ghost lv = lines@.map_values(|s: String| s@);
    let mut out = String::new();
    let mut i: usize = 0;
    while i < lines.len()
        invariant
            i <= lines@.len(),
            lv == lines@.map_values(|s: String| s@),
            out@ == lines_joined(lv.subrange(0, i as int)),
        decreases lines@.len() - i,
    {
        proof {
            reveal_strlit("\n");
            assert(lv.subrange(0, i + 1).drop_last() =~= lv.subrange(0, i as int));
        }
        out.append(lines[i].as_str());
        out.append("\n");
        i = i + 1;
    }
    assert(lv.subrange(0, lv.len() as int) =~= lv);
    Ok(out)
}

} // verus!

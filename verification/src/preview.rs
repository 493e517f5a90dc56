//! The contents of the preview panel and of the footer, as styled text:
//! which strings are shown, in which terminal palette colour, bold or not.
//! The program turns each span into a span of its terminal library.
use vstd::prelude::*;

use crate::text::{concat, copy_string};

verus! {

/// A piece of text with a foreground colour (a palette index of the
/// terminal, `None` for the default colour) and a weight.
pub struct StyledSpan {
    pub text: String,
    pub color: Option<u8>,
    pub bold: bool,
}

/// A colour that the sixteen-colour ANSI palette holds.
pub open spec fn color_ok(c: Option<u8>) -> bool {
    match c {
        Some(k) => k <= 15,
        None => true,
    }
}

/// Every span of a line uses a palette colour or the default one.
pub open spec fn line_ok(line: Seq<StyledSpan>) -> bool {
    forall|i: int| 0 <= i < line.len() ==> color_ok(#[trigger] line[i].color)
}

/// Whether `s` is the span `text` in `color`, bold or not.
pub open spec fn is_span(s: StyledSpan, text: Seq<char>, color: Option<u8>, bold: bool) -> bool {
    s.text@ == text && s.color == color && s.bold == bold
}

/// The names of the eight base colours of the palette, by index.
pub open spec fn palette_name(k: int) -> Seq<char> {
    if k == 0 {
        "black"@
    } else if k == 1 {
        "red"@
    } else if k == 2 {
        "green"@
    } else if k == 3 {
        "yellow"@
    } else if k == 4 {
        "blue"@
    } else if k == 5 {
        "magenta"@
    } else if k == 6 {
        "cyan"@
    } else {
        "white"@
    }
}

/// The swatch row of base colour `k` (0 to 7): a swatch and the name in that
/// colour, the name padded with spaces to the width of the longest name
/// (7), then a swatch and the name of its bright variant (`k + 8`).
pub open spec fn palette_row_spec(row: Seq<StyledSpan>, k: int) -> bool {
    &&& row.len() == 9
    &&& is_span(row[0], "  "@, None, false)
    &&& is_span(row[1], "██"@, Some(k as u8), false)
    &&& is_span(row[2], " "@, None, false)
    &&& is_span(row[3], palette_name(k), Some(k as u8), false)
    &&& row[4].color is None && !row[4].bold
    &&& row[3].text@.len() + row[4].text@.len() == 7
    &&& (forall|j: int| 0 <= j < row[4].text@.len() ==> row[4].text@[j] == ' ')
    &&& is_span(row[5], "    "@, None, false)
    &&& is_span(row[6], "██"@, Some((k + 8) as u8), false)
    &&& is_span(row[7], " "@, None, false)
    &&& is_span(row[8], "bright "@ + palette_name(k), Some((k + 8) as u8), false)
}

fn plain(text: &str) -> (r: StyledSpan)
    ensures
        is_span(r, text@, None, false),
{
    StyledSpan { text: copy_string(text), color: None, bold: false }
}

fn colored(text: &str, color: u8) -> (r: StyledSpan)
    requires
        color <= 15,
    ensures
        is_span(r, text@, Some(color), false),
{
    StyledSpan { text: copy_string(text), color: Some(color), bold: false }
}

fn bold(text: &str, color: u8) -> (r: StyledSpan)
    requires
        color <= 15,
    ensures
        is_span(r, text@, Some(color), true),
{
    StyledSpan { text: copy_string(text), color: Some(color), bold: true }
}

fn push_line(lines: &mut Vec<Vec<StyledSpan>>, line: Vec<StyledSpan>)
    requires
        line_ok(line@),
    ensures
        final(lines)@ == old(lines)@.push(line),
{
    lines.push(line);
}

/// The swatch row of base colour `k`, whose name is `name`, padded by `pad`.
fn palette_row(k: u8, name: &str, pad: &str) -> (r: Vec<StyledSpan>)
    requires
        k < 8,
        name@ == palette_name(k as int),
        name@.len() + pad@.len() == 7,
        forall|j: int| 0 <= j < pad@.len() ==> pad@[j] == ' ',
    ensures
        palette_row_spec(r@, k as int),
        line_ok(r@),
{
    let bright = concat("bright ", name);
    let r = vec![
        plain("  "),
        colored("██", k),
        plain(" "),
        colored(name, k),
        plain(pad),
        plain("    "),
        colored("██", k + 8),
        plain(" "),
        StyledSpan { text: bright, color: Some(k + 8), bold: false },
    ];
    r
}

/// The lines of the preview panel: a palette section with a swatch row for
/// each of the eight base colours beside its bright variant, then a sample
/// of source code and of a terminal session written in palette colours, so
/// that a theme can be judged at a glance. Every span of every line is given
/// below.
pub fn preview_lines() -> (r: Vec<Vec<StyledSpan>>)
    ensures
        r@.len() == 32,
        forall|i: int| 0 <= i < r@.len() ==> line_ok(#[trigger] r@[i]@),
        r@[0]@.len() == 1,
        is_span(r@[0]@[0], "  ── palette ─────────────────────────────────────────────"@, Some(8u8), false),
        forall|k: int| 1 <= k <= 8 ==> palette_row_spec(#[trigger] r@[k]@, k - 1),
        r@[9]@.len() == 1,
        is_span(r@[9]@[0], ""@, None, false),
        r@[10]@.len() == 1,
        is_span(r@[10]@[0], "  ── code ────────────────────────────────────────────────"@, Some(8u8), false),
        r@[11]@.len() == 10,
        is_span(r@[11]@[0], "  "@, None, false),
        is_span(r@[11]@[1], "use "@, Some(4u8), false),
        is_span(r@[11]@[2], "tokio::net::"@, None, false),
        is_span(r@[11]@[3], "TcpListener"@, Some(13u8), false),
        is_span(r@[11]@[4], ";"@, None, false),
        is_span(r@[11]@[5], "  "@, None, false),
        is_span(r@[11]@[6], "use "@, Some(4u8), false),
        is_span(r@[11]@[7], "std::io::"@, None, false),
        is_span(r@[11]@[8], "Result"@, Some(13u8), false),
        is_span(r@[11]@[9], ";"@, None, false),
        r@[12]@.len() == 1,
        is_span(r@[12]@[0], ""@, None, false),
        r@[13]@.len() == 6,
        is_span(r@[13]@[0], "  "@, None, false),
        is_span(r@[13]@[1], "struct "@, Some(4u8), false),
        is_span(r@[13]@[2], "Server"@, Some(13u8), false),
        is_span(r@[13]@[3], " {"@, None, false),
        is_span(r@[13]@[4], "  "@, None, false),
        is_span(r@[13]@[5], "// holds runtime config"@, Some(8u8), false),
        r@[14]@.len() == 3,
        is_span(r@[14]@[0], "      host: "@, None, false),
        is_span(r@[14]@[1], "String"@, Some(13u8), false),
        is_span(r@[14]@[2], ","@, None, false),
        r@[15]@.len() == 6,
        is_span(r@[15]@[0], "      port: "@, None, false),
        is_span(r@[15]@[1], "u16"@, Some(13u8), false),
        is_span(r@[15]@[2], ","@, None, false),
        is_span(r@[15]@[3], "        "@, None, false),
        is_span(r@[15]@[4], "// default: "@, Some(8u8), false),
        is_span(r@[15]@[5], "8080"@, Some(3u8), false),
        r@[16]@.len() == 1,
        is_span(r@[16]@[0], "  }"@, None, false),
        r@[17]@.len() == 1,
        is_span(r@[17]@[0], ""@, None, false),
        r@[18]@.len() == 8,
        is_span(r@[18]@[0], "  "@, None, false),
        is_span(r@[18]@[1], "async fn "@, Some(4u8), false),
        is_span(r@[18]@[2], "connect"@, Some(12u8), false),
        is_span(r@[18]@[3], "(srv: "@, None, false),
        is_span(r@[18]@[4], "Server"@, Some(13u8), false),
        is_span(r@[18]@[5], ") -> "@, None, false),
        is_span(r@[18]@[6], "Result"@, Some(13u8), false),
        is_span(r@[18]@[7], "<()> {"@, None, false),
        r@[19]@.len() == 9,
        is_span(r@[19]@[0], "      "@, None, false),
        is_span(r@[19]@[1], "let "@, Some(4u8), false),
        is_span(r@[19]@[2], "addr = "@, None, false),
        is_span(r@[19]@[3], "format!"@, Some(6u8), false),
        is_span(r@[19]@[4], "("@, None, false),
        is_span(r@[19]@[5], "\"{}:{}\""@, Some(2u8), false),
        is_span(r@[19]@[6], ", srv.host, srv."@, None, false),
        is_span(r@[19]@[7], "port"@, Some(14u8), false),
        is_span(r@[19]@[8], ");"@, None, false),
        r@[20]@.len() == 5,
        is_span(r@[20]@[0], "      "@, None, false),
        is_span(r@[20]@[1], "println!"@, Some(6u8), false),
        is_span(r@[20]@[2], "("@, None, false),
        is_span(r@[20]@[3], "\"listening on {addr}\""@, Some(2u8), false),
        is_span(r@[20]@[4], ");"@, None, false),
        r@[21]@.len() == 3,
        is_span(r@[21]@[0], "      "@, None, false),
        is_span(r@[21]@[1], "Ok"@, Some(10u8), false),
        is_span(r@[21]@[2], "(())"@, None, false),
        r@[22]@.len() == 1,
        is_span(r@[22]@[0], "  }"@, None, false),
        r@[23]@.len() == 1,
        is_span(r@[23]@[0], ""@, None, false),
        r@[24]@.len() == 1,
        is_span(r@[24]@[0], "  ── terminal ────────────────────────────────────────────"@, Some(8u8), false),
        r@[25]@.len() == 4,
        is_span(r@[25]@[0], "  ~/projects/server"@, Some(12u8), false),
        is_span(r@[25]@[1], " "@, None, false),
        is_span(r@[25]@[2], "(main)"@, Some(11u8), false),
        is_span(r@[25]@[3], " $ cargo build"@, None, false),
        r@[26]@.len() == 4,
        is_span(r@[26]@[0], "       "@, None, false),
        is_span(r@[26]@[1], "Compiling"@, Some(10u8), false),
        is_span(r@[26]@[2], " server v"@, None, false),
        is_span(r@[26]@[3], "0.1.0"@, Some(3u8), false),
        r@[27]@.len() == 5,
        is_span(r@[27]@[0], "  "@, None, false),
        is_span(r@[27]@[1], "warning"@, Some(11u8), false),
        is_span(r@[27]@[2], ": unused variable `"@, None, false),
        is_span(r@[27]@[3], "x"@, Some(3u8), false),
        is_span(r@[27]@[4], "`"@, None, false),
        r@[28]@.len() == 3,
        is_span(r@[28]@[0], "  "@, None, false),
        is_span(r@[28]@[1], "error"@, Some(9u8), false),
        is_span(r@[28]@[2], "[E0502]: cannot borrow `data` as mutable"@, None, false),
        r@[29]@.len() == 5,
        is_span(r@[29]@[0], "       "@, None, false),
        is_span(r@[29]@[1], "Finished"@, Some(2u8), false),
        is_span(r@[29]@[2], " dev [unoptimized] in "@, None, false),
        is_span(r@[29]@[3], "1.24"@, Some(3u8), false),
        is_span(r@[29]@[4], "s"@, None, false),
        r@[30]@.len() == 1,
        is_span(r@[30]@[0], ""@, None, false),
        r@[31]@.len() == 7,
        is_span(r@[31]@[0], "  "@, None, false),
        is_span(r@[31]@[1], "[✓]"@, Some(10u8), true),
        is_span(r@[31]@[2], " tests passed   "@, None, false),
        is_span(r@[31]@[3], "[!]"@, Some(11u8), true),
        is_span(r@[31]@[4], " 1 warning   "@, None, false),
        is_span(r@[31]@[5], "[✗]"@, Some(9u8), true),
        is_span(r@[31]@[6], " 2 errors"@, None, false),
{
    proof {
        reveal_strlit("black");
        reveal_strlit("red");
        reveal_strlit("green");
        reveal_strlit("yellow");
        reveal_strlit("blue");
        reveal_strlit("magenta");
        reveal_strlit("cyan");
        reveal_strlit("white");
        reveal_strlit("");
        reveal_strlit(" ");
        reveal_strlit("  ");
        reveal_strlit("   ");
        reveal_strlit("    ");
    }
    let mut lines: Vec<Vec<StyledSpan>> = Vec::new();
    push_line(&mut lines, vec![colored("  ── palette ─────────────────────────────────────────────", 8)]);
    push_line(&mut lines, palette_row(0, "black", "  "));
    push_line(&mut lines, palette_row(1, "red", "    "));
    push_line(&mut lines, palette_row(2, "green", "  "));
    push_line(&mut lines, palette_row(3, "yellow", " "));
    push_line(&mut lines, palette_row(4, "blue", "   "));
    push_line(&mut lines, palette_row(5, "magenta", ""));
    push_line(&mut lines, palette_row(6, "cyan", "   "));
    push_line(&mut lines, palette_row(7, "white", "  "));
    push_line(&mut lines, vec![plain("")]);
    assert(forall|k: int| 1 <= k <= 8 ==> palette_row_spec(#[trigger] lines@[k]@, k - 1));
    push_line(&mut lines, vec![colored("  ── code ────────────────────────────────────────────────", 8)]);
    push_line(&mut lines, vec![plain("  "), colored("use ", 4), plain("tokio::net::"), colored("TcpListener", 13), plain(";"), plain("  "), colored("use ", 4), plain("std::io::"), colored("Result", 13), plain(";")]);
    push_line(&mut lines, vec![plain("")]);
    push_line(&mut lines, vec![plain("  "), colored("struct ", 4), colored("Server", 13), plain(" {"), plain("  "), colored("// holds runtime config", 8)]);
    push_line(&mut lines, vec![plain("      host: "), colored("String", 13), plain(",")]);
    push_line(&mut lines, vec![plain("      port: "), colored("u16", 13), plain(","), plain("        "), colored("// default: ", 8), colored("8080", 3)]);
    push_line(&mut lines, vec![plain("  }")]);
    push_line(&mut lines, vec![plain("")]);
    push_line(&mut lines, vec![plain("  "), colored("async fn ", 4), colored("connect", 12), plain("(srv: "), colored("Server", 13), plain(") -> "), colored("Result", 13), plain("<()> {")]);
    push_line(&mut lines, vec![plain("      "), colored("let ", 4), plain("addr = "), colored("format!", 6), plain("("), colored("\"{}:{}\"", 2), plain(", srv.host, srv."), colored("port", 14), plain(");")]);
    push_line(&mut lines, vec![plain("      "), colored("println!", 6), plain("("), colored("\"listening on {addr}\"", 2), plain(");")]);
    push_line(&mut lines, vec![plain("      "), colored("Ok", 10), plain("(())")]);
    push_line(&mut lines, vec![plain("  }")]);
    push_line(&mut lines, vec![plain("")]);
    push_line(&mut lines, vec![colored("  ── terminal ────────────────────────────────────────────", 8)]);
    push_line(&mut lines, vec![colored("  ~/projects/server", 12), plain(" "), colored("(main)", 11), plain(" $ cargo build")]);
    push_line(&mut lines, vec![plain("       "), colored("Compiling", 10), plain(" server v"), colored("0.1.0", 3)]);
    push_line(&mut lines, vec![plain("  "), colored("warning", 11), plain(": unused variable `"), colored("x", 3), plain("`")]);
    push_line(&mut lines, vec![plain("  "), colored("error", 9), plain("[E0502]: cannot borrow `data` as mutable")]);
    push_line(&mut lines, vec![plain("       "), colored("Finished", 2), plain(" dev [unoptimized] in "), colored("1.24", 3), plain("s")]);
    push_line(&mut lines, vec![plain("")]);
    push_line(&mut lines, vec![plain("  "), bold("[✓]", 10), plain(" tests passed   "), bold("[!]", 11), plain(" 1 warning   "), bold("[✗]", 9),  plain(" 2 errors")]);
    lines
}

} // verus!

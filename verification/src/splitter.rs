//! Splitting a source document into its typed sections.
//!
//! A marker line is a line whose first non-whitespace character is the
//! marker glyph (the broken-bar character, bytes `0xC2 0xA6` in UTF-8)
//! immediately followed by a keyword naming a section, compared without
//! regard to ASCII case: `html` for markup, `css` or `scss` for styling,
//! `js`, `ts` or `typescript` for script. Whitespace and the keyword's
//! alphanumeric run are the ASCII classes: non-ASCII whitespace does
//! not precede a marker, and a non-ASCII byte ends the keyword. The
//! marker line itself is
//! consumed; following lines belong to that section until the next
//! marker. Text before the first marker is dropped. Repeated blocks of
//! one type concatenate in document order; styling blocks are wrapped in
//! machine delimiters naming their sub-type so the style preprocessor
//! can dispatch per block after concatenation.

use crate::text::byte_is_alnum;
use crate::text::byte_is_space;
use crate::text::is_alnum;
use crate::text::is_space;
use crate::text::join_lines;
use crate::text::lemma_join_push;
use crate::text::line_views;
use crate::text::lower;
use crate::text::normalize_newlines;
use crate::text::normalize_spec;
use crate::text::push_all;
use crate::text::split_lines;
use crate::text::split_lines_spec;
use crate::text::trim;
use crate::text::trim_spec;
use crate::text::trim_start_spec;
use crate::text::NL;
use vstd::prelude::*;
use vstd::string::StringSliceAdditionalSpecFns;

verus! {

/// First byte of the UTF-8 encoding of the marker glyph.
pub const MARKER_B0: u8 = 0xC2;

/// Second byte of the UTF-8 encoding of the marker glyph.
pub const MARKER_B1: u8 = 0xA6;

/// The run of ASCII alphanumeric bytes at the head of `s`.
pub open spec fn alnum_prefix(s: Seq<u8>) -> Seq<u8>
    decreases s.len(),
{
    if s.len() > 0 && is_alnum(s[0]) {
        seq![s[0]] + alnum_prefix(s.drop_first())
    } else {
        Seq::empty()
    }
}

/// `line` is a marker line for the keyword `name`: after leading
/// whitespace come the marker glyph and then an alphanumeric run equal
/// to `name` up to ASCII case.
pub open spec fn marker_matches(line: Seq<u8>, name: Seq<u8>) -> bool {
    let t = trim_start_spec(line);
    &&& t.len() >= 2
    &&& t[0] == MARKER_B0
    &&& t[1] == MARKER_B1
    &&& lower(alnum_prefix(t.subrange(2, t.len() as int))) == lower(name)
}

/// Does `line` open a section named `name`?
pub fn starts_with_section_marker(line: &[u8], name: &[u8]) -> (r: bool)
    ensures
        r == marker_matches(line@, name@),
{
    let len = line.len();
    let mut lo: usize = 0;
    proof {
        assert(line@.subrange(0, len as int) =~= line@);
    }
    while lo < len && byte_is_space(line[lo])
        invariant
            len == line@.len(),
            0 <= lo <= len,
            trim_start_spec(line@) == trim_start_spec(line@.subrange(lo as int, len as int)),
        decreases len - lo,
    {
        proof {
            assert(line@.subrange(lo as int, len as int).drop_first() =~= line@.subrange(
                lo + 1,
                len as int,
            ));
        }
        lo += 1;
    }
    proof {
        assert(trim_start_spec(line@.subrange(lo as int, len as int)) == line@.subrange(
            lo as int,
            len as int,
        ));
    }
    let ghost t = trim_start_spec(line@);
    if len - lo < 2 {
        return false;
    }
    if line[lo] != MARKER_B0 {
        return false;
    }
    if line[lo + 1] != MARKER_B1 {
        return false;
    }
    let start = lo + 2;
    let ghost ident = alnum_prefix(line@.subrange(start as int, len as int));
    proof {
        assert(t.subrange(2, t.len() as int) =~= line@.subrange(start as int, len as int));
    }
    let mut j = start;
    proof {
        assert(line@.subrange(start as int, start as int) + ident =~= ident);
    }
    while j < len && byte_is_alnum(line[j])
        invariant
            len == line@.len(),
            start <= j <= len,
            ident == line@.subrange(start as int, j as int) + alnum_prefix(
                line@.subrange(j as int, len as int),
            ),
        decreases len - j,
    {
        proof {
            let rest = line@.subrange(j as int, len as int);
            assert(rest.drop_first() =~= line@.subrange(j + 1, len as int));
            assert(rest[0] == line@[j as int]);
            assert(line@.subrange(start as int, j as int) + (seq![rest[0]] + alnum_prefix(
                line@.subrange(j + 1, len as int),
            )) =~= line@.subrange(start as int, j + 1) + alnum_prefix(
                line@.subrange(j + 1, len as int),
            ));
        }
        j += 1;
    }
    proof {
        assert(alnum_prefix(line@.subrange(j as int, len as int)) =~= Seq::<u8>::empty());
        assert(ident =~= line@.subrange(start as int, j as int));
    }
    if j - start != name.len() {
        proof {
            assert(lower(ident).len() == ident.len());
            assert(lower(name@).len() == name@.len());
        }
        return false;
    }
    let r = crate::text::eq_ci_at(line, name, start);
    proof {
        assert(line@.subrange(start as int, start + name@.len()) =~= ident);
    }
    r
}

/// Which section content is being collected into.
#[derive(Clone, Copy, Debug, PartialEq, Eq, Structural)]
pub enum SectionKind {
    /// Before the first marker; content here is dropped.
    Outside,
    /// The markup section.
    Markup,
    /// A plain styling block.
    CssStyling,
    /// A styling block that still needs compiling.
    ScssStyling,
    /// The script section.
    Script,
}

/// The section a marker line switches to, or `None` for a content line.
pub open spec fn marker_kind(line: Seq<u8>) -> Option<SectionKind> {
    if marker_matches(line, "html".spec_bytes()) {
        Some(SectionKind::Markup)
    } else if marker_matches(line, "css".spec_bytes()) {
        Some(SectionKind::CssStyling)
    } else if marker_matches(line, "scss".spec_bytes()) {
        Some(SectionKind::ScssStyling)
    } else if marker_matches(line, "js".spec_bytes()) || marker_matches(
        line,
        "ts".spec_bytes(),
    ) || marker_matches(line, "typescript".spec_bytes()) {
        Some(SectionKind::Script)
    } else {
        None
    }
}

/// Classifies one line as a marker for some section, or as content.
pub fn classify_line(line: &[u8]) -> (r: Option<SectionKind>)
    ensures
        r == marker_kind(line@),
{
    if starts_with_section_marker(line, "html".as_bytes()) {
        Some(SectionKind::Markup)
    } else if starts_with_section_marker(line, "css".as_bytes()) {
        Some(SectionKind::CssStyling)
    } else if starts_with_section_marker(line, "scss".as_bytes()) {
        Some(SectionKind::ScssStyling)
    } else if starts_with_section_marker(line, "js".as_bytes()) || starts_with_section_marker(
        line,
        "ts".as_bytes(),
    ) || starts_with_section_marker(line, "typescript".as_bytes()) {
        Some(SectionKind::Script)
    } else {
        None
    }
}

/// The lines belonging to section `k`, walking `lines` with `cur` as the
/// active section: marker lines switch the active section and are
/// consumed, content lines are kept when the active section is `k`.
pub open spec fn collect_section(lines: Seq<Seq<u8>>, cur: SectionKind, k: SectionKind) -> Seq<
    Seq<u8>,
>
    decreases lines.len(),
{
    if lines.len() == 0 {
        Seq::empty()
    } else {
        match marker_kind(lines[0]) {
            Some(nk) => collect_section(lines.drop_first(), nk, k),
            None => if cur == k {
                seq![lines[0]] + collect_section(lines.drop_first(), cur, k)
            } else {
                collect_section(lines.drop_first(), cur, k)
            },
        }
    }
}

/// The trimmed text of section `k`: its collected lines joined back
/// with line feeds, leading and trailing whitespace dropped.
pub open spec fn section_text(lines: Seq<Seq<u8>>, k: SectionKind) -> Seq<u8> {
    trim_spec(join_lines(collect_section(lines, SectionKind::Outside, k)))
}

/// `s` without any leading byte-order marks.
pub open spec fn strip_bom_spec(s: Seq<u8>) -> Seq<u8>
    decreases s.len(),
{
    if s.len() >= 3 && s[0] == 0xEF && s[1] == 0xBB && s[2] == 0xBF {
        strip_bom_spec(s.subrange(3, s.len() as int))
    } else {
        s
    }
}

/// Drops any leading byte-order marks.
pub fn strip_bom(s: &[u8]) -> (r: &[u8])
    ensures
        r@ == strip_bom_spec(s@),
{
    let len = s.len();
    let mut lo: usize = 0;
    proof {
        assert(s@.subrange(0, len as int) =~= s@);
    }
    while len - lo >= 3 && s[lo] == 0xEF && s[lo + 1] == 0xBB && s[lo + 2] == 0xBF
        invariant
            len == s@.len(),
            0 <= lo <= len,
            strip_bom_spec(s@) == strip_bom_spec(s@.subrange(lo as int, len as int)),
        decreases len - lo,
    {
        proof {
            let rest = s@.subrange(lo as int, len as int);
            assert(rest.subrange(3, rest.len() as int) =~= s@.subrange(lo + 3, len as int));
        }
        lo += 3;
    }
    vstd::slice::slice_subrange(s, lo, len)
}

/// The parsed sections of a source document, each absent when it never
/// appeared or held only whitespace.
#[derive(Clone, Debug)]
pub struct ParsedContent {
    /// The markup section, if present.
    pub markup: Option<Vec<u8>>,
    /// The combined styling text with embedded sub-type delimiters, if present.
    pub styling: Option<Vec<u8>>,
    /// The script section, if present.
    pub script: Option<Vec<u8>>,
}

/// The mathematical shape of `ParsedContent`.
pub struct ParsedView {
    /// The markup section, if present.
    pub markup: Option<Seq<u8>>,
    /// The combined styling text, if present.
    pub styling: Option<Seq<u8>>,
    /// The script section, if present.
    pub script: Option<Seq<u8>>,
}

impl View for ParsedContent {
    type V = ParsedView;

    open spec fn view(&self) -> ParsedView {
        ParsedView {
            markup: match self.markup {
                Some(v) => Some(v@),
                None => None,
            },
            styling: match self.styling {
                Some(v) => Some(v@),
                None => None,
            },
            script: match self.script {
                Some(v) => Some(v@),
                None => None,
            },
        }
    }
}

/// A plain styling block wrapped in its machine delimiters.
pub open spec fn tagged_css(c: Seq<u8>) -> Seq<u8> {
    "/* CSS */\n".spec_bytes() + c + "\n/* EOF */".spec_bytes()
}

/// A to-be-compiled styling block wrapped in its machine delimiters.
pub open spec fn tagged_scss(c: Seq<u8>) -> Seq<u8> {
    "/* SCSS */\n".spec_bytes() + c + "\n/* EOF */".spec_bytes()
}

/// The combined styling text out of the plain and to-be-compiled
/// section texts, absent when both are empty.
pub open spec fn combined_styling(c: Seq<u8>, sc: Seq<u8>) -> Option<Seq<u8>> {
    if c.len() > 0 && sc.len() > 0 {
        Some(tagged_css(c) + "\n\n".spec_bytes() + tagged_scss(sc))
    } else if c.len() > 0 {
        Some(tagged_css(c))
    } else if sc.len() > 0 {
        Some(tagged_scss(sc))
    } else {
        None
    }
}

/// What parsing a whole document yields: byte-order marks stripped,
/// newlines normalized, lines walked by marker, each section trimmed
/// and reported absent when empty.
pub open spec fn parse_content_spec(input: Seq<u8>) -> ParsedView {
    let lines = split_lines_spec(normalize_spec(strip_bom_spec(input)));
    let m = section_text(lines, SectionKind::Markup);
    let c = section_text(lines, SectionKind::CssStyling);
    let sc = section_text(lines, SectionKind::ScssStyling);
    let s = section_text(lines, SectionKind::Script);
    ParsedView {
        markup: if m.len() == 0 {
            None
        } else {
            Some(m)
        },
        styling: combined_styling(c, sc),
        script: if s.len() == 0 {
            None
        } else {
            Some(s)
        },
    }
}

/// Parses the content of a source document into its typed sections.
pub fn parse_breach_content(content: &[u8]) -> (r: ParsedContent)
    ensures
        r@ == parse_content_spec(content@),
{
    let stripped = strip_bom(content);
    let normalized = normalize_newlines(stripped);
    let lines = split_lines(normalized.as_slice());
    let ghost lv = line_views(lines@);
    let n = lines.len();

    let mut cur = SectionKind::Outside;
    let mut acc_m: Vec<u8> = Vec::new();
    let mut acc_c: Vec<u8> = Vec::new();
    let mut acc_sc: Vec<u8> = Vec::new();
    let mut acc_s: Vec<u8> = Vec::new();
    let mut has_m = false;
    let mut has_c = false;
    let mut has_sc = false;
    let mut has_s = false;
    let ghost mut g_m: Seq<Seq<u8>> = Seq::empty();
    let ghost mut g_c: Seq<Seq<u8>> = Seq::empty();
    let ghost mut g_sc: Seq<Seq<u8>> = Seq::empty();
    let ghost mut g_s: Seq<Seq<u8>> = Seq::empty();

    proof {
        assert(lv.subrange(0, n as int) =~= lv);
    }
    let mut li: usize = 0;
    while li < n
        invariant
            n == lines@.len(),
            lv == line_views(lines@),
            0 <= li <= n,
            collect_section(lv, SectionKind::Outside, SectionKind::Markup) == g_m
                + collect_section(lv.subrange(li as int, n as int), cur, SectionKind::Markup),
            collect_section(lv, SectionKind::Outside, SectionKind::CssStyling) == g_c
                + collect_section(lv.subrange(li as int, n as int), cur, SectionKind::CssStyling),
            collect_section(lv, SectionKind::Outside, SectionKind::ScssStyling) == g_sc
                + collect_section(lv.subrange(li as int, n as int), cur, SectionKind::ScssStyling),
            collect_section(lv, SectionKind::Outside, SectionKind::Script) == g_s
                + collect_section(lv.subrange(li as int, n as int), cur, SectionKind::Script),
            acc_m@ == join_lines(g_m),
            acc_c@ == join_lines(g_c),
            acc_sc@ == join_lines(g_sc),
            acc_s@ == join_lines(g_s),
            has_m == (g_m.len() > 0),
            has_c == (g_c.len() > 0),
            has_sc == (g_sc.len() > 0),
            has_s == (g_s.len() > 0),
        decreases n - li,
    {
        let ghost rest = lv.subrange(li as int, n as int);
        proof {
            assert(rest.drop_first() =~= lv.subrange(li + 1, n as int));
            assert(rest[0] == lv[li as int]);
            assert(lv[li as int] == lines@[li as int]@);
        }
        let line = &lines[li];
        match classify_line(line.as_slice()) {
            Some(k) => {
                cur = k;
            },
            None => {
                match cur {
                    SectionKind::Outside => {
                    },
                    SectionKind::Markup => {
                        proof {
                            lemma_join_push(g_m, lv[li as int]);
                            assert(g_m + (seq![rest[0]] + collect_section(
                                rest.drop_first(),
                                cur,
                                SectionKind::Markup,
                            )) =~= g_m.push(rest[0]) + collect_section(
                                rest.drop_first(),
                                cur,
                                SectionKind::Markup,
                            ));
                        }
                        if has_m {
                            acc_m.push(NL);
                        }
                        push_all(&mut acc_m, line.as_slice());
                        has_m = true;
                        proof {
                            g_m = g_m.push(lv[li as int]);
                        }
                    },
                    SectionKind::CssStyling => {
                        proof {
                            lemma_join_push(g_c, lv[li as int]);
                            assert(g_c + (seq![rest[0]] + collect_section(
                                rest.drop_first(),
                                cur,
                                SectionKind::CssStyling,
                            )) =~= g_c.push(rest[0]) + collect_section(
                                rest.drop_first(),
                                cur,
                                SectionKind::CssStyling,
                            ));
                        }
                        if has_c {
                            acc_c.push(NL);
                        }
                        push_all(&mut acc_c, line.as_slice());
                        has_c = true;
                        proof {
                            g_c = g_c.push(lv[li as int]);
                        }
                    },
                    SectionKind::ScssStyling => {
                        proof {
                            lemma_join_push(g_sc, lv[li as int]);
                            assert(g_sc + (seq![rest[0]] + collect_section(
                                rest.drop_first(),
                                cur,
                                SectionKind::ScssStyling,
                            )) =~= g_sc.push(rest[0]) + collect_section(
                                rest.drop_first(),
                                cur,
                                SectionKind::ScssStyling,
                            ));
                        }
                        if has_sc {
                            acc_sc.push(NL);
                        }
                        push_all(&mut acc_sc, line.as_slice());
                        has_sc = true;
                        proof {
                            g_sc = g_sc.push(lv[li as int]);
                        }
                    },
                    SectionKind::Script => {
                        proof {
                            lemma_join_push(g_s, lv[li as int]);
                            assert(g_s + (seq![rest[0]] + collect_section(
                                rest.drop_first(),
                                cur,
                                SectionKind::Script,
                            )) =~= g_s.push(rest[0]) + collect_section(
                                rest.drop_first(),
                                cur,
                                SectionKind::Script,
                            ));
                        }
                        if has_s {
                            acc_s.push(NL);
                        }
                        push_all(&mut acc_s, line.as_slice());
                        has_s = true;
                        proof {
                            g_s = g_s.push(lv[li as int]);
                        }
                    },
                }
            },
        }
        li += 1;
    }
    proof {
        assert(lv.subrange(n as int, n as int) =~= Seq::<Seq<u8>>::empty());
        assert(g_m + Seq::<Seq<u8>>::empty() =~= g_m);
        assert(g_c + Seq::<Seq<u8>>::empty() =~= g_c);
        assert(g_sc + Seq::<Seq<u8>>::empty() =~= g_sc);
        assert(g_s + Seq::<Seq<u8>>::empty() =~= g_s);
    }

    let m_text = trim(acc_m.as_slice());
    let c_text = trim(acc_c.as_slice());
    let sc_text = trim(acc_sc.as_slice());
    let s_text = trim(acc_s.as_slice());

    let markup = if m_text.len() == 0 {
        None
    } else {
        Some(m_text)
    };
    let script = if s_text.len() == 0 {
        None
    } else {
        Some(s_text)
    };

    let styling = if c_text.len() > 0 || sc_text.len() > 0 {
        let mut sty: Vec<u8> = Vec::new();
        if c_text.len() > 0 {
            push_all(&mut sty, "/* CSS */\n".as_bytes());
            push_all(&mut sty, c_text.as_slice());
            push_all(&mut sty, "\n/* EOF */".as_bytes());
            proof {
                assert(sty@ =~= tagged_css(c_text@));
            }
        }
        if sc_text.len() > 0 {
            if c_text.len() > 0 {
                push_all(&mut sty, "\n\n".as_bytes());
            }
            let ghost before = sty@;
            push_all(&mut sty, "/* SCSS */\n".as_bytes());
            push_all(&mut sty, sc_text.as_slice());
            push_all(&mut sty, "\n/* EOF */".as_bytes());
            proof {
                assert(sty@ =~= before + tagged_scss(sc_text@));
                if c_text@.len() > 0 {
                    assert(sty@ =~= tagged_css(c_text@) + "\n\n".spec_bytes() + tagged_scss(
                        sc_text@,
                    ));
                } else {
                    assert(sty@ =~= tagged_scss(sc_text@));
                }
            }
        }
        Some(sty)
    } else {
        None
    };

    ParsedContent { markup, styling, script }
}

} // verus!

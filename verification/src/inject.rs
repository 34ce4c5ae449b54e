//! Rewriting markup to reference the generated assets and to bootstrap
//! live reload.
//!
//! An existing title element is extracted and removed so it can be
//! relocated into a synthesized head. The stylesheet reference goes
//! before `</head>` when one exists; else right after `<head>`; else
//! right after `<html>`, synthesizing a whole head block there with the
//! saved title; else a head block (charset, stylesheet link, saved
//! title) is prepended to the document. The script reference goes right
//! before `</body>` when one exists, else at the end. Both references
//! carry the fingerprint as a cache-busting query, and a fixed
//! live-reload bootstrap script is always appended.

use crate::text::find_case_insensitive;
use crate::text::lemma_find_ci_in_range;
use crate::text::push_all;
use crate::text::spec_find_ci;
use crate::text::trim;
use crate::text::trim_spec;
use crate::text::NL;
use vstd::prelude::*;
use vstd::string::StringSliceAdditionalSpecFns;

verus! {

/// The bootstrap script appended to every page: it opens the
/// live-update channel and reloads the page on the reload signal.
pub const LIVERELOAD_SRC: &'static str = "<script>\n(function() {\n    var ws = new WebSocket('ws://' + window.location.host + '/ws');\n    ws.onmessage = function(event) {\n        if (event.data === 'reload') {\n            window.location.reload();\n        }\n    };\n})();\n</script>";

/// The bytes of the live-reload bootstrap script.
pub open spec fn livereload_script() -> Seq<u8> {
    LIVERELOAD_SRC.spec_bytes()
}

/// The decimal digits of `n`, most significant first.
pub open spec fn dec_digits(n: nat) -> Seq<u8>
    decreases n,
{
    if n < 10 {
        seq![(48 + n) as u8]
    } else {
        dec_digits(n / 10).push((48 + n % 10) as u8)
    }
}

/// Writes `n` in decimal.
pub fn u64_to_dec(n: u64) -> (r: Vec<u8>)
    ensures
        r@ == dec_digits(n as nat),
{
    let mut tmp: Vec<u8> = Vec::new();
    let mut m = n;
    proof {
        assert(dec_digits(n as nat) + tmp@.reverse() =~= dec_digits(n as nat));
        assert(tmp@.reverse() + dec_digits(n as nat) =~= dec_digits(n as nat));
    }
    loop
        invariant_except_break
            dec_digits(n as nat) == dec_digits(m as nat) + tmp@.reverse(),
        ensures
            dec_digits(n as nat) == tmp@.reverse(),
        decreases m,
    {
        proof {
            assert(m % 10 < 10) by (nonlinear_arith);
        }
        let d = (m % 10) as u8;
        let ghost prev = tmp@;
        tmp.push(48 + d);
        proof {
            assert(tmp@.reverse() =~= seq![(48 + d) as u8] + prev.reverse());
        }
        if m < 10 {
            proof {
                assert(dec_digits(m as nat) == seq![(48 + m as nat) as u8]);
                assert(m as nat % 10 == m as nat);
                assert(dec_digits(m as nat) + prev.reverse() =~= tmp@.reverse());
            }
            break ;
        }
        proof {
            assert(m / 10 < m) by (nonlinear_arith)
                requires
                    m >= 10,
            ;
            assert(dec_digits(m as nat) == dec_digits(m as nat / 10).push(
                (48 + m as nat % 10) as u8,
            ));
            assert(dec_digits(m as nat / 10) + tmp@.reverse() =~= dec_digits(m as nat / 10).push(
                (48 + m as nat % 10) as u8,
            ) + prev.reverse());
            assert(m as nat / 10 == (m / 10) as nat);
        }
        m = m / 10;
    }
    let mut out: Vec<u8> = Vec::new();
    let tl = tmp.len();
    let mut i = tl;
    while i > 0
        invariant
            tl == tmp@.len(),
            0 <= i <= tl,
            out@.len() == tl - i,
            forall|k: int| 0 <= k < out@.len() ==> out@[k] == tmp@[tl - 1 - k],
        decreases i,
    {
        i -= 1;
        out.push(tmp[i]);
    }
    proof {
        assert(out@ =~= tmp@.reverse());
    }
    out
}

/// The stylesheet reference for fingerprint `fp`.
pub open spec fn css_link_tag(fp: u64) -> Seq<u8> {
    "<link rel=\"stylesheet\" href=\"/style.css?v=".spec_bytes() + dec_digits(fp as nat)
        + "\">".spec_bytes()
}

/// The script reference for fingerprint `fp`.
pub open spec fn js_script_tag(fp: u64) -> Seq<u8> {
    "<script src=\"/script.js?v=".spec_bytes() + dec_digits(fp as nat)
        + "\"></script>".spec_bytes()
}

fn css_link_tag_bytes(fp: u64) -> (r: Vec<u8>)
    ensures
        r@ == css_link_tag(fp),
{
    let mut v: Vec<u8> = Vec::new();
    push_all(&mut v, "<link rel=\"stylesheet\" href=\"/style.css?v=".as_bytes());
    let d = u64_to_dec(fp);
    push_all(&mut v, d.as_slice());
    push_all(&mut v, "\">".as_bytes());
    proof {
        assert(v@ =~= css_link_tag(fp));
    }
    v
}

fn js_script_tag_bytes(fp: u64) -> (r: Vec<u8>)
    ensures
        r@ == js_script_tag(fp),
{
    let mut v: Vec<u8> = Vec::new();
    push_all(&mut v, "<script src=\"/script.js?v=".as_bytes());
    let d = u64_to_dec(fp);
    push_all(&mut v, d.as_slice());
    push_all(&mut v, "\"></script>".as_bytes());
    proof {
        assert(v@ =~= js_script_tag(fp));
    }
    v
}

/// The view of an optional borrowed byte slice.
pub open spec fn opt_bytes_view(t: Option<&[u8]>) -> Option<Seq<u8>> {
    match t {
        Some(b) => Some(b@),
        None => None,
    }
}

/// What extracting the title yields: the markup with the first title
/// element removed, and the element's trimmed text. Markup whose
/// closing tag comes before the end of its opening tag is left alone.
pub open spec fn extract_title_spec(m: Seq<u8>) -> (Seq<u8>, Option<Seq<u8>>) {
    let topen = "<title>".spec_bytes();
    let tclose = "</title>".spec_bytes();
    match spec_find_ci(m, topen) {
        Some(ts) => match spec_find_ci(m, tclose) {
            Some(te) => if ts + topen.len() <= te {
                (
                    m.subrange(0, ts) + m.subrange(te + tclose.len(), m.len() as int),
                    Some(trim_spec(m.subrange(ts + topen.len(), te))),
                )
            } else {
                (m, None)
            },
            None => (m, None),
        },
        None => (m, None),
    }
}

/// Extracts the text of the first title element and removes the
/// element, returning the remaining markup and the saved text.
pub fn extract_and_remove_title(html: &[u8]) -> (r: (Vec<u8>, Option<Vec<u8>>))
    ensures
        r.0@ == extract_title_spec(html@).0,
        (match r.1 {
            Some(v) => Some(v@),
            None => None,
        }) == extract_title_spec(html@).1,
{
    let topen = "<title>".as_bytes();
    let tclose = "</title>".as_bytes();
    let len = html.len();
    let ts = match find_case_insensitive(html, topen) {
        Some(i) => i,
        None => {
            return (vstd::slice::slice_to_vec(html), None);
        },
    };
    let te = match find_case_insensitive(html, tclose) {
        Some(i) => i,
        None => {
            return (vstd::slice::slice_to_vec(html), None);
        },
    };
    proof {
        lemma_find_ci_in_range(html@, topen@, 0);
        lemma_find_ci_in_range(html@, tclose@, 0);
    }
    if ts + topen.len() > te {
        return (vstd::slice::slice_to_vec(html), None);
    }
    let title = trim(vstd::slice::slice_subrange(html, ts + topen.len(), te));
    let mut rest: Vec<u8> = Vec::new();
    push_all(&mut rest, vstd::slice::slice_subrange(html, 0, ts));
    push_all(&mut rest, vstd::slice::slice_subrange(html, te + tclose.len(), len));
    proof {
        assert(Seq::<u8>::empty() + html@.subrange(0, ts as int) =~= html@.subrange(0, ts as int));
    }
    (rest, Some(title))
}

/// The extra head content holding a relocated title, when one was saved.
pub open spec fn title_part(title: Option<Seq<u8>>) -> Seq<u8> {
    match title {
        Some(tc) => "\n    <title>".spec_bytes() + tc + "</title>".spec_bytes(),
        None => Seq::<u8>::empty(),
    }
}

/// A synthesized head block holding the stylesheet reference and the
/// saved title.
pub open spec fn head_block(tag: Seq<u8>, title: Option<Seq<u8>>) -> Seq<u8> {
    "<head>\n    ".spec_bytes() + tag + title_part(title) + "\n</head>".spec_bytes()
}

/// A synthesized head block for a document with no structure tags at
/// all: charset declaration, stylesheet reference, saved title.
pub open spec fn head_block_meta(tag: Seq<u8>, title: Option<Seq<u8>>) -> Seq<u8> {
    "<head>\n    <meta charset=\"utf-8\">\n    ".spec_bytes() + tag + title_part(title)
        + "\n</head>".spec_bytes()
}

/// Where the stylesheet reference lands: before `</head>`, else after
/// `<head>`, else after `<html>` inside a synthesized head block, else
/// inside a head block prepended to the whole document.
pub open spec fn inject_css_spec(m: Seq<u8>, tag: Seq<u8>, title: Option<Seq<u8>>) -> Seq<u8> {
    if let Some(he) = spec_find_ci(m, "</head>".spec_bytes()) {
        m.subrange(0, he) + "\n    ".spec_bytes() + tag + m.subrange(he, m.len() as int)
    } else if let Some(hs) = spec_find_ci(m, "<head>".spec_bytes()) {
        let at = hs + "<head>".spec_bytes().len();
        m.subrange(0, at) + "\n    ".spec_bytes() + tag + m.subrange(at, m.len() as int)
    } else if let Some(ho) = spec_find_ci(m, "<html>".spec_bytes()) {
        let at = ho + "<html>".spec_bytes().len();
        m.subrange(0, at) + seq![NL] + head_block(tag, title) + m.subrange(at, m.len() as int)
    } else {
        head_block_meta(tag, title) + seq![NL] + m
    }
}

/// Where the script reference lands: before `</body>`, else appended.
pub open spec fn inject_js_spec(m: Seq<u8>, tag: Seq<u8>) -> Seq<u8> {
    if let Some(be) = spec_find_ci(m, "</body>".spec_bytes()) {
        m.subrange(0, be) + "\n    ".spec_bytes() + tag + m.subrange(be, m.len() as int)
    } else {
        m + seq![NL] + tag
    }
}

/// `m` with `pre`, then `ins`, spliced in at position `at`.
fn splice(m: &[u8], at: usize, pre: &[u8], ins: &[u8]) -> (r: Vec<u8>)
    requires
        at <= m@.len(),
    ensures
        r@ == m@.subrange(0, at as int) + pre@ + ins@ + m@.subrange(at as int, m@.len() as int),
{
    let mut out: Vec<u8> = Vec::new();
    push_all(&mut out, vstd::slice::slice_subrange(m, 0, at));
    push_all(&mut out, pre);
    push_all(&mut out, ins);
    push_all(&mut out, vstd::slice::slice_subrange(m, at, m.len()));
    proof {
        assert(out@ =~= m@.subrange(0, at as int) + pre@ + ins@ + m@.subrange(
            at as int,
            m@.len() as int,
        ));
    }
    out
}

fn build_head_block(tag: &[u8], title: Option<&[u8]>, with_meta: bool) -> (r: Vec<u8>)
    ensures
        r@ == if with_meta {
            head_block_meta(tag@, opt_bytes_view(title))
        } else {
            head_block(tag@, opt_bytes_view(title))
        },
{
    let mut v: Vec<u8> = Vec::new();
    if with_meta {
        push_all(&mut v, "<head>\n    <meta charset=\"utf-8\">\n    ".as_bytes());
    } else {
        push_all(&mut v, "<head>\n    ".as_bytes());
    }
    push_all(&mut v, tag);
    match title {
        Some(tc) => {
            push_all(&mut v, "\n    <title>".as_bytes());
            push_all(&mut v, tc);
            push_all(&mut v, "</title>".as_bytes());
        },
        None => {
        },
    }
    push_all(&mut v, "\n</head>".as_bytes());
    proof {
        if with_meta {
            assert(v@ =~= head_block_meta(tag@, opt_bytes_view(title)));
        } else {
            assert(v@ =~= head_block(tag@, opt_bytes_view(title)));
        }
    }
    v
}

/// Injects the stylesheet reference into the markup.
pub fn inject_css_link(html: &[u8], link_tag: &[u8], title_content: Option<&[u8]>) -> (r: Vec<u8>)
    ensures
        r@ == inject_css_spec(html@, link_tag@, opt_bytes_view(title_content)),
{
    let len = html.len();
    if let Some(he) = find_case_insensitive(html, "</head>".as_bytes()) {
        proof {
            lemma_find_ci_in_range(html@, "</head>".spec_bytes(), 0);
        }
        splice(html, he, "\n    ".as_bytes(), link_tag)
    } else if let Some(hs) = find_case_insensitive(html, "<head>".as_bytes()) {
        proof {
            lemma_find_ci_in_range(html@, "<head>".spec_bytes(), 0);
        }
        let at = hs + "<head>".as_bytes().len();
        splice(html, at, "\n    ".as_bytes(), link_tag)
    } else if let Some(ho) = find_case_insensitive(html, "<html>".as_bytes()) {
        proof {
            lemma_find_ci_in_range(html@, "<html>".spec_bytes(), 0);
        }
        let at = ho + "<html>".as_bytes().len();
        let block = build_head_block(link_tag, title_content, false);
        let nl: [u8; 1] = [NL];
        let r = splice(html, at, nl.as_slice(), block.as_slice());
        proof {
            assert(nl@ =~= seq![NL]);
        }
        r
    } else {
        let block = build_head_block(link_tag, title_content, true);
        let mut out: Vec<u8> = Vec::new();
        push_all(&mut out, block.as_slice());
        out.push(NL);
        push_all(&mut out, html);
        proof {
            assert(out@ =~= head_block_meta(link_tag@, opt_bytes_view(title_content)) + seq![NL]
                + html@);
        }
        out
    }
}

/// Injects the script reference into the markup.
pub fn inject_js_script(html: &[u8], script_tag: &[u8]) -> (r: Vec<u8>)
    ensures
        r@ == inject_js_spec(html@, script_tag@),
{
    if let Some(be) = find_case_insensitive(html, "</body>".as_bytes()) {
        proof {
            lemma_find_ci_in_range(html@, "</body>".spec_bytes(), 0);
        }
        splice(html, be, "\n    ".as_bytes(), script_tag)
    } else {
        let mut out: Vec<u8> = Vec::new();
        push_all(&mut out, html);
        out.push(NL);
        push_all(&mut out, script_tag);
        proof {
            assert(out@ =~= html@ + seq![NL] + script_tag@);
        }
        out
    }
}

/// The whole stylesheet placement: markup with a head keeps its title
/// in place and gets the reference inside the head; markup without one
/// has its title extracted and relocated into the synthesized head.
pub open spec fn place_css_spec(m: Seq<u8>, tag: Seq<u8>) -> Seq<u8> {
    if spec_find_ci(m, "</head>".spec_bytes()) is Some || spec_find_ci(
        m,
        "<head>".spec_bytes(),
    ) is Some {
        inject_css_spec(m, tag, None)
    } else {
        let extracted = extract_title_spec(m);
        inject_css_spec(extracted.0, tag, extracted.1)
    }
}

/// What one whole injection pass yields: the stylesheet and script
/// references placed when their sections exist, both carrying the
/// fingerprint, and the live-reload bootstrap script appended. A title
/// moves only when a head block is synthesized around it; an existing
/// head keeps its title where it stands.
pub open spec fn inject_links_spec(m: Seq<u8>, has_css: bool, has_js: bool, fp: u64) -> Seq<u8> {
    let m2 = if has_css {
        place_css_spec(m, css_link_tag(fp))
    } else {
        m
    };
    let m3 = if has_js {
        inject_js_spec(m2, js_script_tag(fp))
    } else {
        m2
    };
    inject_js_spec(m3, livereload_script())
}

/// Rewrites the markup once, at build time: places the asset
/// references and appends the live-reload bootstrap.
pub fn inject_links_once(html: &[u8], has_css: bool, has_js: bool, fingerprint: u64) -> (r: Vec<
    u8,
>)
    ensures
        r@ == inject_links_spec(html@, has_css, has_js, fingerprint),
{
    let mut result: Vec<u8>;
    if has_css {
        let tag = css_link_tag_bytes(fingerprint);
        let has_head = find_case_insensitive(html, "</head>".as_bytes()).is_some()
            || find_case_insensitive(html, "<head>".as_bytes()).is_some();
        if has_head {
            result = inject_css_link(html, tag.as_slice(), None);
        } else {
            let (removed, title) = extract_and_remove_title(html);
            let title_ref = match title {
                Some(ref v) => Some(v.as_slice()),
                None => None,
            };
            result = inject_css_link(removed.as_slice(), tag.as_slice(), title_ref);
        }
    } else {
        result = vstd::slice::slice_to_vec(html);
    }
    if has_js {
        let tag = js_script_tag_bytes(fingerprint);
        result = inject_js_script(result.as_slice(), tag.as_slice());
    }
    let lr = LIVERELOAD_SRC.as_bytes();
    inject_js_script(result.as_slice(), lr)
}

} // verus!

//! Script-section helpers: TypeScript compilation and JavaScript
//! minification, in their fallback forms that transform the source
//! without an external toolchain.

use crate::text::join_lines;
use crate::text::lemma_join_push;
use crate::text::line_views;
use crate::text::push_all;
use crate::text::split_lines;
use crate::text::split_lines_spec;
use crate::text::trim;
use crate::text::trim_spec;
use crate::text::NL;
use vstd::prelude::*;

verus! {

/// Compiles TypeScript code to JavaScript. This fallback passes the
/// source through unchanged.
pub fn compile_typescript_with_oxc(_filename: &str, ts: &str) -> (r: Result<String, String>)
    ensures
        r matches Ok(js) && js@ == ts@,
{
    Ok(ts.to_owned())
}

/// What minification yields: every line trimmed, the lines joined back
/// with single line feeds.
pub open spec fn minify_spec(s: Seq<u8>) -> Seq<u8> {
    join_lines(split_lines_spec(s).map_values(|l: Seq<u8>| trim_spec(l)))
}

/// Minifies JavaScript code by trimming every line.
pub fn minify_js(js: &[u8]) -> (r: Result<Vec<u8>, String>)
    ensures
        r matches Ok(v) && v@ == minify_spec(js@),
{
    let lines = split_lines(js);
    let ghost lv = line_views(lines@);
    let n = lines.len();
    let mut out: Vec<u8> = Vec::new();
    let ghost mut g: Seq<Seq<u8>> = Seq::empty();
    let mut li: usize = 0;
    while li < n
        invariant
            n == lines@.len(),
            lv == line_views(lines@),
            0 <= li <= n,
            g.len() == li,
            forall|k: int| 0 <= k < li ==> g[k] == trim_spec(lv[k]),
            out@ == join_lines(g),
        decreases n - li,
    {
        let t = trim((&lines[li]).as_slice());
        proof {
            lemma_join_push(g, t@);
        }
        if li > 0 {
            out.push(NL);
        }
        push_all(&mut out, t.as_slice());
        proof {
            g = g.push(t@);
            assert(out@ =~= join_lines(g));
        }
        li += 1;
    }
    proof {
        assert(g =~= split_lines_spec(js@).map_values(|l: Seq<u8>| trim_spec(l)));
    }
    Ok(out)
}

} // verus!

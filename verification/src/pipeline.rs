//! One pipeline run: preprocess styling, fingerprint the final
//! artifacts, inject references into the markup, and bundle the result
//! into an immutable prepared snapshot.

use crate::fingerprint::fx_fold;
use crate::fingerprint::fx_fold_bytes;
use crate::inject::inject_links_once;
use crate::inject::inject_links_spec;
use crate::splitter::parse_breach_content;
use crate::splitter::parse_content_spec;
use crate::splitter::ParsedContent;
use crate::splitter::ParsedView;
use crate::styling::process_styling_content;
use crate::styling::process_styling_spec;
use crate::text::trim_spec;
use vstd::prelude::*;
use vstd::string::StringSliceAdditionalSpecFns;

verus! {

/// A prepared snapshot: the parsed sections with styling already
/// preprocessed, the markup with references injected, and the
/// fingerprint of the final artifacts. Immutable once built; one
/// snapshot corresponds to one pipeline run over one file version.
#[derive(Clone, Debug)]
pub struct PreparedContent {
    /// The parsed sections, styling in its final form.
    pub parsed: ParsedContent,
    /// The markup with references injected, prepared once at build time.
    pub html_injected: Option<Vec<u8>>,
    /// The hash of the final artifacts, for change detection and
    /// cache busting.
    pub fingerprint: u64,
}

/// The mathematical shape of `PreparedContent`.
pub struct PreparedView {
    /// The parsed sections.
    pub parsed: ParsedView,
    /// The injected markup, if markup is present.
    pub html_injected: Option<Seq<u8>>,
    /// The fingerprint of the final artifacts.
    pub fingerprint: u64,
}

impl View for PreparedContent {
    type V = PreparedView;

    open spec fn view(&self) -> PreparedView {
        PreparedView {
            parsed: self.parsed@,
            html_injected: match self.html_injected {
                Some(v) => Some(v@),
                None => None,
            },
            fingerprint: self.fingerprint,
        }
    }
}

/// The styling section after preprocessing, absent when the result is
/// all whitespace.
pub open spec fn final_styling(styling: Option<Seq<u8>>) -> Option<Seq<u8>> {
    match styling {
        Some(s) => {
            let c = process_styling_spec(s);
            if trim_spec(c).len() == 0 {
                None
            } else {
                Some(c)
            }
        },
        None => None,
    }
}

/// The bytes one section folds into the fingerprint: its own when
/// present, nothing when absent (folding an empty sequence leaves the
/// hash unchanged, so an absent section and a skipped fold agree).
pub open spec fn section_bytes(s: Option<Seq<u8>>) -> Seq<u8> {
    match s {
        Some(b) => b,
        None => Seq::<u8>::empty(),
    }
}

/// The fingerprint of the final artifacts: markup, then styling, then
/// script folded into the hash in that fixed order, one fold per
/// artifact. An absent script folds a sentinel sequence instead of
/// being skipped, so "no script section" and "script section present"
/// stay apart.
pub open spec fn fingerprint_of(
    markup: Option<Seq<u8>>,
    styling: Option<Seq<u8>>,
    script: Option<Seq<u8>>,
) -> u64 {
    fx_fold(
        fx_fold(fx_fold(0, section_bytes(markup)), section_bytes(styling)),
        match script {
            Some(s) => s,
            None => "NO_SCRIPT".spec_bytes(),
        },
    )
}

/// What one pipeline run yields from parsed sections: styling
/// preprocessed, the fingerprint over the final artifacts, and the
/// markup injected with that fingerprint.
pub open spec fn prepare_spec(p: ParsedView) -> PreparedView {
    let styled = final_styling(p.styling);
    let fp = fingerprint_of(p.markup, styled, p.script);
    PreparedView {
        parsed: ParsedView { markup: p.markup, styling: styled, script: p.script },
        html_injected: match p.markup {
            Some(m) => Some(inject_links_spec(m, styled is Some, p.script is Some, fp)),
            None => None,
        },
        fingerprint: fp,
    }
}

/// A snapshot is well formed when its fingerprint is the hash of its
/// own final artifacts and its injected markup is derived from its own
/// parsed sections with that same fingerprint — never a mix of two
/// generations.
pub open spec fn prepared_wf(p: PreparedView) -> bool {
    &&& p.fingerprint == fingerprint_of(p.parsed.markup, p.parsed.styling, p.parsed.script)
    &&& p.html_injected == (match p.parsed.markup {
        Some(m) => Some(
            inject_links_spec(
                m,
                p.parsed.styling is Some,
                p.parsed.script is Some,
                p.fingerprint,
            ),
        ),
        None => None,
    })
}

/// Every pipeline run yields a well-formed snapshot.
pub proof fn lemma_prepare_wf(p: ParsedView)
    ensures
        prepared_wf(prepare_spec(p)),
{
}

/// Runs the preprocessing, fingerprinting and injection over parsed
/// sections, yielding a well-formed snapshot.
pub fn prepare(parsed: ParsedContent) -> (r: PreparedContent)
    ensures
        r@ == prepare_spec(parsed@),
        prepared_wf(r@),
{
    let styled: Option<Vec<u8>> = match &parsed.styling {
        Some(s) => {
            let c = process_styling_content(s.as_slice());
            let t = crate::text::trim(c.as_slice());
            if t.len() == 0 {
                None
            } else {
                Some(c)
            }
        },
        None => None,
    };

    let mut fp: u64 = 0;
    match &parsed.markup {
        Some(m) => {
            fp = fx_fold_bytes(fp, m.as_slice());
        },
        None => {
            proof {
                assert(fx_fold(fp, Seq::<u8>::empty()) == fp);
            }
        },
    }
    match &styled {
        Some(s) => {
            fp = fx_fold_bytes(fp, s.as_slice());
        },
        None => {
            proof {
                assert(fx_fold(fp, Seq::<u8>::empty()) == fp);
            }
        },
    }
    match &parsed.script {
        Some(s) => {
            fp = fx_fold_bytes(fp, s.as_slice());
        },
        None => {
            fp = fx_fold_bytes(fp, "NO_SCRIPT".as_bytes());
        },
    }
    proof {
        assert(fp == fingerprint_of(parsed@.markup, final_styling(parsed@.styling), parsed@.script));
    }

    let html_injected = match &parsed.markup {
        Some(m) => Some(
            inject_links_once(m.as_slice(), styled.is_some(), parsed.script.is_some(), fp),
        ),
        None => None,
    };

    let result = PreparedContent {
        parsed: ParsedContent { markup: parsed.markup, styling: styled, script: parsed.script },
        html_injected,
        fingerprint: fp,
    };
    result
}

/// What the whole pipeline yields from raw file bytes.
pub open spec fn pipeline_spec(input: Seq<u8>) -> PreparedView {
    prepare_spec(parse_content_spec(input))
}

/// Runs the whole pipeline — split, preprocess, inject, fingerprint —
/// over raw file bytes.
pub fn prepare_from_source(content: &[u8]) -> (r: PreparedContent)
    ensures
        r@ == pipeline_spec(content@),
        prepared_wf(r@),
{
    let parsed = parse_breach_content(content);
    prepare(parsed)
}

/// Identical input bytes run through the pipeline yield identical
/// fingerprints and identical injected markup: the pipeline is a
/// function of the input bytes alone, so a second run over the same
/// bytes changes nothing.
pub proof fn lemma_pipeline_idempotent(a: Seq<u8>, b: Seq<u8>)
    requires
        a == b,
    ensures
        pipeline_spec(a).fingerprint == pipeline_spec(b).fingerprint,
        pipeline_spec(a).html_injected == pipeline_spec(b).html_injected,
        pipeline_spec(a) == pipeline_spec(b),
{
}

} // verus!

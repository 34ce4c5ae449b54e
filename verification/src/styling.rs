//! Preprocessing the combined styling text into final CSS.
//!
//! The combined styling text carries machine delimiters naming each
//! block's sub-type. Blocks are split back apart on the end delimiter,
//! plain blocks pass through unchanged, to-be-compiled blocks go
//! through the external compiler, and a block whose compilation fails
//! degrades to its raw source text rather than being dropped. The
//! results concatenate in original order, separated by a blank line.

use crate::text::eq_at;
use crate::text::find_sub;
use crate::text::join_with;
use crate::text::lemma_find_in_range;
use crate::text::lemma_join_with_push;
use crate::text::push_all;
use crate::text::spec_find;
use crate::text::trim;
use crate::text::trim_spec;
use crate::text::NL;
use vstd::prelude::*;

verus! {

/// The delimiter opening a plain styling block: `/* CSS */`.
pub open spec fn css_delim() -> Seq<u8> {
    seq![47u8, 42u8, 32u8, 67u8, 83u8, 83u8, 32u8, 42u8, 47u8]
}

/// The delimiter opening a to-be-compiled styling block: `/* SCSS */`.
pub open spec fn scss_delim() -> Seq<u8> {
    seq![47u8, 42u8, 32u8, 83u8, 67u8, 83u8, 83u8, 32u8, 42u8, 47u8]
}

/// The delimiter closing a styling block: `/* EOF */`.
pub open spec fn eof_delim() -> Seq<u8> {
    seq![47u8, 42u8, 32u8, 69u8, 79u8, 70u8, 32u8, 42u8, 47u8]
}

fn css_delim_bytes() -> (r: Vec<u8>)
    ensures
        r@ == css_delim(),
{
    let mut v: Vec<u8> = Vec::new();
    v.push(47);
    v.push(42);
    v.push(32);
    v.push(67);
    v.push(83);
    v.push(83);
    v.push(32);
    v.push(42);
    v.push(47);
    proof {
        assert(v@ =~= css_delim());
    }
    v
}

fn scss_delim_bytes() -> (r: Vec<u8>)
    ensures
        r@ == scss_delim(),
{
    let mut v: Vec<u8> = Vec::new();
    v.push(47);
    v.push(42);
    v.push(32);
    v.push(83);
    v.push(67);
    v.push(83);
    v.push(83);
    v.push(32);
    v.push(42);
    v.push(47);
    proof {
        assert(v@ =~= scss_delim());
    }
    v
}

fn eof_delim_bytes() -> (r: Vec<u8>)
    ensures
        r@ == eof_delim(),
{
    let mut v: Vec<u8> = Vec::new();
    v.push(47);
    v.push(42);
    v.push(32);
    v.push(69);
    v.push(79);
    v.push(70);
    v.push(32);
    v.push(42);
    v.push(47);
    proof {
        assert(v@ =~= eof_delim());
    }
    v
}

/// What compiling one to-be-compiled block returns: the compiled CSS,
/// or nothing when the compiler rejects the source. The compiler runs
/// on an empty file system and without its random builtins, so the
/// result depends on the source text alone.
pub uninterp spec fn scss_result_of(src: Seq<u8>) -> Option<Seq<u8>>;

/// Compiles one block of SCSS source to CSS.
///
/// Relies on `grass::from_string` (grass_compiler, `from_string`):
/// compiles the source as SCSS on a file system with no files
/// (`grass::NullFs`), so imports cannot reach disk, with warnings
/// discarded (`grass::NullLogger`). The crate is built without grass's
/// default features, which leaves out the `random` feature and with it
/// the two builtins whose output varies between runs; a call to one is
/// then an unknown function, which the compiler emits literally, the
/// same way every time. The output is therefore a function of the
/// source text alone. The compiler is relied on to return, without
/// panicking, for every input. Returns the compiled CSS, or the
/// compiler's error message.
#[verifier::external_body]
pub fn compile_scss_to_css(scss: &[u8]) -> (r: Result<Vec<u8>, String>)
    ensures
        r is Ok <==> scss_result_of(scss@) is Some,
        r matches Ok(css) ==> Some(css@) == scss_result_of(scss@),
{
    let source = String::from_utf8_lossy(scss).into_owned();
    let options = grass::Options::default().fs(&grass::NullFs).logger(&grass::NullLogger);
    match grass::from_string(source, &options) {
        Ok(css) => Ok(css.into_bytes()),
        Err(e) => Err(e.to_string()),
    }
}

/// The styling text split apart on the closing delimiter. A found
/// position is always in bounds; the guard only spells that out for
/// the termination argument.
pub open spec fn split_on_eof(s: Seq<u8>) -> Seq<Seq<u8>>
    decreases s.len(),
{
    match spec_find(s, eof_delim()) {
        Some(i) => if 0 <= i && i + eof_delim().len() <= s.len() {
            seq![s.subrange(0, i)] + split_on_eof(
                s.subrange(i + eof_delim().len() as int, s.len() as int),
            )
        } else {
            seq![s]
        },
        None => seq![s],
    }
}

/// What one split-off block contributes to the final CSS: nothing when
/// blank, its raw text for a plain block, the compiler's output (or,
/// when the compiler rejects it, the raw source) for a to-be-compiled
/// block, and the trimmed text itself for a block with no delimiter.
pub open spec fn process_piece(piece: Seq<u8>) -> Seq<Seq<u8>> {
    let t = trim_spec(piece);
    if t.len() == 0 {
        Seq::empty()
    } else if t.len() >= 9 && t.subrange(0, 9) == css_delim() {
        let c = trim_spec(t.subrange(9, t.len() as int));
        if c.len() == 0 {
            Seq::empty()
        } else {
            seq![c]
        }
    } else if t.len() >= 10 && t.subrange(0, 10) == scss_delim() {
        let sc = trim_spec(t.subrange(10, t.len() as int));
        if sc.len() == 0 {
            Seq::empty()
        } else {
            seq![
                match scss_result_of(sc) {
                    Some(css) => css,
                    None => sc,
                },
            ]
        }
    } else {
        seq![t]
    }
}

/// The contributions of every block, in order.
pub open spec fn processed_pieces(ps: Seq<Seq<u8>>) -> Seq<Seq<u8>>
    decreases ps.len(),
{
    if ps.len() == 0 {
        Seq::empty()
    } else {
        process_piece(ps[0]) + processed_pieces(ps.drop_first())
    }
}

/// The final CSS of the whole styling text: every block's contribution,
/// joined with blank lines.
pub open spec fn process_styling_spec(s: Seq<u8>) -> Seq<u8> {
    join_with(processed_pieces(split_on_eof(s)), seq![NL, NL])
}

/// Appends one contribution to the output, with the blank-line
/// separator before it when it is not the first.
fn append_block(out: &mut Vec<u8>, started: &mut bool, block: &[u8])
    ensures
        *final(started),
        final(out)@ == if *old(started) {
            old(out)@ + seq![NL, NL] + block@
        } else {
            old(out)@ + block@
        },
{
    if *started {
        out.push(NL);
        out.push(NL);
    }
    push_all(out, block);
    *started = true;
    proof {
        if *old(started) {
            assert(out@ =~= old(out)@ + seq![NL, NL] + block@);
        }
    }
}

/// Turns the combined styling text into final CSS.
pub fn process_styling_content(styling: &[u8]) -> (r: Vec<u8>)
    ensures
        r@ == process_styling_spec(styling@),
{
    let cssd = css_delim_bytes();
    let scssd = scss_delim_bytes();
    let eofd = eof_delim_bytes();
    let len = styling.len();
    let mut out: Vec<u8> = Vec::new();
    let mut started = false;
    let mut pos: usize = 0;
    let ghost mut gout: Seq<Seq<u8>> = Seq::empty();
    proof {
        assert(styling@.subrange(0, len as int) =~= styling@);
        assert(Seq::<Seq<u8>>::empty() + processed_pieces(split_on_eof(styling@)) =~=
            processed_pieces(split_on_eof(styling@)));
    }
    loop
        invariant_except_break
            len == styling@.len(),
            0 <= pos <= len,
            processed_pieces(split_on_eof(styling@)) == gout + processed_pieces(
                split_on_eof(styling@.subrange(pos as int, len as int)),
            ),
            out@ == join_with(gout, seq![NL, NL]),
            started == (gout.len() > 0),
            cssd@ == css_delim(),
            scssd@ == scss_delim(),
            eofd@ == eof_delim(),
        ensures
            out@ == process_styling_spec(styling@),
        decreases len - pos,
    {
        let rem = vstd::slice::slice_subrange(styling, pos, len);
        let ghost remv = rem@;
        let found = find_sub(rem, eofd.as_slice());
        proof {
            lemma_find_in_range(remv, eof_delim(), 0);
        }
        let piece_end = match found {
            Some(i) => i,
            None => rem.len(),
        };
        let piece = vstd::slice::slice_subrange(rem, 0, piece_end);
        let t = trim(piece);

        // One contribution of this block, mirroring `process_piece`.
        let ghost gpiece = process_piece(piece@);
        let ghost gout_prev = gout;
        let tlen = t.len();
        if tlen == 0 {
        } else if tlen >= 9 && eq_at(t.as_slice(), cssd.as_slice(), 0) {
            proof {
                assert(t@.subrange(0, 9) == css_delim());
            }
            let body = vstd::slice::slice_subrange(t.as_slice(), 9, tlen);
            proof {
                assert(body@ =~= t@.subrange(9, t@.len() as int));
            }
            let c = trim(body);
            if c.len() > 0 {
                proof {
                    gout = gout.push(c@);
                }
                append_block(&mut out, &mut started, c.as_slice());
            }
        } else if tlen >= 10 && eq_at(t.as_slice(), scssd.as_slice(), 0) {
            proof {
                assert(t@.subrange(0, 10) == scss_delim());
            }
            let body = vstd::slice::slice_subrange(t.as_slice(), 10, tlen);
            proof {
                assert(body@ =~= t@.subrange(10, t@.len() as int));
            }
            let sc = trim(body);
            if sc.len() > 0 {
                match compile_scss_to_css(sc.as_slice()) {
                    Ok(css) => {
                        proof {
                            gout = gout.push(css@);
                        }
                        append_block(&mut out, &mut started, css.as_slice());
                    },
                    Err(_) => {
                        proof {
                            gout = gout.push(sc@);
                        }
                        append_block(&mut out, &mut started, sc.as_slice());
                    },
                }
            }
        } else {
            proof {
                gout = gout.push(t@);
            }
            append_block(&mut out, &mut started, t.as_slice());
        }
        proof {
            let rest_pieces = processed_pieces(split_on_eof(remv).drop_first());
            if gpiece.len() > 0 {
                lemma_join_with_push(gout_prev, gpiece[0], seq![NL, NL]);
                assert(gout =~= gout_prev.push(gpiece[0]));
                assert(gout_prev + (gpiece + rest_pieces) =~= gout + rest_pieces);
                assert(out@ =~= join_with(gout, seq![NL, NL]));
            } else {
                assert(gout_prev + (gpiece + rest_pieces) =~= gout + rest_pieces);
            }
        }

        match found {
            Some(i) => {
                proof {
                    let next = remv.subrange(i + eof_delim().len() as int, remv.len() as int);
                    assert(next =~= styling@.subrange(
                        pos + i + eof_delim().len() as int,
                        len as int,
                    ));
                    assert(split_on_eof(remv) == seq![remv.subrange(0, i as int)] + split_on_eof(
                        next,
                    ));
                    assert(split_on_eof(remv)[0] == piece@);
                    assert(split_on_eof(remv).drop_first() =~= split_on_eof(next));
                }
                pos = pos + i + 9;
            },
            None => {
                proof {
                    assert(split_on_eof(remv) == seq![remv]);
                    assert(split_on_eof(remv)[0] == piece@);
                    assert(split_on_eof(remv).drop_first() =~= Seq::<Seq<u8>>::empty());
                    assert(processed_pieces(Seq::<Seq<u8>>::empty()) =~= Seq::<Seq<u8>>::empty());
                    assert(gout + Seq::<Seq<u8>>::empty() =~= gout);
                }
                break ;
            },
        }
    }
    out
}

} // verus!

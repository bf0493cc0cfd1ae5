//! The Markdown math scanner: locates `$...$` and `$$...$$` spans in
//! Markdown text and parses each span's content.
//!
//! Scanning walks the text character by character.  A `$` opens a span;
//! an immediately following second `$` makes it display-mode.  The closing
//! delimiter is the next `$` (for display mode, the next `$$`).  A span
//! whose content fails to parse is skipped silently, and a `$` with no
//! closing delimiter is ignored.

use vstd::prelude::*;

use crate::ast::{MathBlock, MathBlockV, ExprV};
use crate::error::{ParseError, ErrV};
use crate::grammar::{adv, spec_parse_expression};
use crate::lexer::{rem, spec_tokens};
use crate::parser::Parser;

verus! {

/// The parsed expression value of one span's text, or the error that
/// aborted its parse.  Trailing tokens are not rejected.
pub open spec fn spec_parse_block(s: Seq<char>) -> Result<ExprV, ErrV> {
    match spec_parse_expression(spec_tokens(s, 0), 0, false) {
        Ok((e, _)) => Ok(e),
        Err(e) => Err(e),
    }
}

/// The position of the closing delimiter at or after `j`: the next `$`,
/// or for display mode the next `$` that is immediately followed by a
/// second one; `None` when the text ends first.
pub open spec fn spec_find_close(cs: Seq<char>, j: int, display: bool) -> Option<int>
    decreases rem(cs, j),
{
    if !(0 <= j < cs.len()) {
        None
    } else if cs[j] == '$' && (!display || (j + 1 < cs.len() && cs[j + 1] == '$')) {
        Some(j)
    } else {
        spec_find_close(cs, j + 1, display)
    }
}

/// The formulas of the Markdown text from position `i` on, in document
/// order.
#[verifier::opaque]
pub open spec fn spec_scan_markdown(cs: Seq<char>, i: int) -> Seq<MathBlockV>
    decreases rem(cs, i),
{
    if !(0 <= i < cs.len()) {
        Seq::empty()
    } else if cs[i] != '$' {
        spec_scan_markdown(cs, i + 1)
    } else {
        let display = i + 1 < cs.len() && cs[i + 1] == '$';
        let start = if display {
            i + 2
        } else {
            i + 1
        };
        match spec_find_close(cs, start, display) {
            None => spec_scan_markdown(cs, i + 1),
            Some(e) => {
                let next = if display {
                    e + 2
                } else {
                    e + 1
                };
                let blocks = match spec_parse_block(cs.subrange(start, e)) {
                    Ok(ev) => seq![MathBlockV { expr: ev, display_style: display }],
                    Err(_) => Seq::<MathBlockV>::empty(),
                };
                blocks + spec_scan_markdown(cs, adv(i, next))
            },
        }
    }
}

/// The position of the closing delimiter at or after `j`, if any.
fn find_close(chars: &Vec<char>, j: usize, display: bool) -> (r: Option<usize>)
    requires
        j <= chars@.len(),
    ensures
        match r {
            Some(e) => spec_find_close(chars@, j as int, display) == Some(e as int) && j <= e
                < chars@.len() && (display ==> e + 1 < chars@.len()),
            None => spec_find_close(chars@, j as int, display) is None,
        },
{
    let ghost cs = chars@;
    let mut k = j;
    loop
        invariant
            j <= k <= cs.len(),
            chars@ == cs,
            spec_find_close(cs, j as int, display) == spec_find_close(cs, k as int, display),
        decreases cs.len() - k,
    {
        if k >= chars.len() {
            return None;
        }
        if chars[k] == '$' {
            if !display {
                return Some(k);
            }
            if k + 1 < chars.len() && chars[k + 1] == '$' {
                return Some(k);
            }
        }
        proof {
            assert(spec_find_close(cs, k as int, display) == spec_find_close(
                cs,
                k + 1 as int,
                display,
            ));
        }
        k = k + 1;
    }
}

/// The characters of `chars` between `a` and `b`.
fn subchars(chars: &Vec<char>, a: usize, b: usize) -> (v: Vec<char>)
    requires
        a <= b <= chars@.len(),
    ensures
        v@ == chars@.subrange(a as int, b as int),
{
    let mut v: Vec<char> = Vec::new();
    let mut i = a;
    while i < b
        invariant
            a <= i <= b <= chars@.len(),
            v@ == chars@.subrange(a as int, i as int),
        decreases b - i,
    {
        v.push(chars[i]);
        proof {
            assert(v@ =~= chars@.subrange(a as int, i + 1 as int));
        }
        i = i + 1;
    }
    v
}

/// All formulas of the Markdown text, in document order.  A span whose
/// content fails to parse contributes nothing.
pub(crate) fn scan_markdown(markdown: &str) -> (r: Vec<MathBlock>)
    ensures
        r.deep_view() == spec_scan_markdown(markdown@, 0),
{
    let chars = crate::strutil::chars_of(markdown);
    let ghost cs = markdown@;
    let mut blocks: Vec<MathBlock> = Vec::new();
    let mut i: usize = 0;
    proof {
        assert(blocks.deep_view() =~= Seq::<MathBlockV>::empty());
    }
    loop
        invariant
            i <= cs.len(),
            chars@ == cs,
            cs == markdown@,
            spec_scan_markdown(cs, 0) == blocks.deep_view() + spec_scan_markdown(cs, i as int),
        decreases cs.len() - i,
    {
        proof {
            reveal(spec_scan_markdown);
        }
        if i >= chars.len() {
            proof {
                assert(spec_scan_markdown(cs, 0) =~= blocks.deep_view());
            }
            return blocks;
        }
        if chars[i] != '$' {
            i = i + 1;
            continue ;
        }
        let display = i + 1 < chars.len() && chars[i + 1] == '$';
        let start = if display {
            i + 2
        } else {
            i + 1
        };
        match find_close(&chars, start, display) {
            None => {
                i = i + 1;
            },
            Some(e) => {
                proof {
                    vstd::std_specs::vec::axiom_spec_len(&chars);
                }
                let content = subchars(&chars, start, e);
                let text = crate::strutil::string_of_chars(&content);
                let ghost oldblocks = blocks.deep_view();
                let next = if display {
                    e + 2
                } else {
                    e + 1
                };
                proof {
                    assert(adv(i as int, next as int) == next as int);
                }
                match crate::parse_math_block(text.as_str(), display) {
                    Ok(mb) => {
                        let ghost mbv = mb.deep_view();
                        blocks.push(mb);
                        proof {
                            assert(blocks.deep_view() =~= oldblocks.push(mbv));
                            assert(spec_scan_markdown(cs, 0) == blocks.deep_view()
                                + spec_scan_markdown(cs, adv(i as int, next as int)));
                        }
                    },
                    Err(_) => {
                        proof {
                            assert(spec_scan_markdown(cs, 0) == blocks.deep_view()
                                + spec_scan_markdown(cs, adv(i as int, next as int)));
                        }
                    },
                }
                if next > chars.len() {
                    proof {
                        assert(spec_scan_markdown(cs, next as int) =~= Seq::<MathBlockV>::empty());
                        assert(spec_scan_markdown(cs, 0) =~= blocks.deep_view());
                    }
                    return blocks;
                }
                i = next;
            },
        }
    }
}

} // verus!

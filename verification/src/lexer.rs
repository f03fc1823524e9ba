//! The character-level tokenizer: raw text splits into structural markers,
//! prefix operators and symbol tokens, each token carrying its sequence
//! number as identity.

use vstd::prelude::*;
use crate::err::{JtsErr, JtsErrType};
use crate::objects::Obj;
use crate::tokens::{Id, Tok, TokType, VTok};

verus! {

/// Whether `ch` separates tokens without being one.
pub fn is_escaper(ch: char) -> (r: bool)
    ensures
        r == TokType::spec_is_escaper(ch),
{
    TokType::is_escaper(ch)
}

/// Whether `ch` is a structural marker or prefix operator character.
pub fn is_operater(ch: char) -> (r: bool)
    ensures
        r == TokType::spec_is_operater(ch),
{
    TokType::is_operater(ch)
}

/// Whether `ch` cannot continue a symbol token.
pub fn is_non_tok(ch: char) -> (r: bool)
    ensures
        r == TokType::spec_is_non_symbol(ch),
{
    TokType::is_non_symbol(ch)
}

/// Reads a literal from symbol text, exactly as interning does.
pub fn to_obj(src: &String) -> (r: Obj)
    ensures
        r@ == Obj::spec_from_string(src@),
{
    Obj::from_string(src)
}

/// What token a flushed window of text denotes under sequence number `n`:
/// none for an empty window or one led by a separator, a marker or operator
/// for the single structural characters, otherwise a symbol.
pub open spec fn s_to_tok(s: Seq<char>, n: usize) -> Option<VTok> {
    if s.len() == 0 || TokType::spec_is_escaper(s[0]) {
        None
    } else {
        let t = if s.len() == 1 && s[0] == '(' {
            TokType::Beg
        } else if s.len() == 1 && s[0] == ')' {
            TokType::End
        } else if s.len() == 1 && s[0] == '\'' {
            TokType::Quote
        } else if s.len() == 1 && s[0] == ',' {
            TokType::Escape
        } else if s.len() == 1 && s[0] == '@' {
            TokType::Apply
        } else if s.len() == 1 && s[0] == '&' {
            TokType::Rest
        } else {
            TokType::Symbol
        };
        Some(VTok { source: s, tok_type: t, id: Some(n) })
    }
}

/// Converts a window of text into a token under sequence number `n`.
pub fn to_tok(src: &String, n: usize) -> (r: Option<Tok>)
    ensures
        match r {
            Some(t) => s_to_tok(src@, n) == Some(t@),
            None => s_to_tok(src@, n) is None,
        },
{
    let len = src.as_str().unicode_len();
    if len == 0 {
        return None;
    }
    let c0 = src.as_str().get_char(0);
    if TokType::is_escaper(c0) {
        return None;
    }
    let t = if len == 1 && c0 == '(' {
        TokType::Beg
    } else if len == 1 && c0 == ')' {
        TokType::End
    } else if len == 1 && c0 == '\'' {
        TokType::Quote
    } else if len == 1 && c0 == ',' {
        TokType::Escape
    } else if len == 1 && c0 == '@' {
        TokType::Apply
    } else if len == 1 && c0 == '&' {
        TokType::Rest
    } else {
        TokType::Symbol
    };
    Some(Tok::new(src, t, Id::new(n)))
}

/// The sequence with the token for one window appended, when the window
/// yields one.
pub open spec fn s_flush(acc: Seq<VTok>, win: Seq<char>) -> Seq<VTok> {
    match s_to_tok(win, acc.len() as usize) {
        Some(t) => acc.push(t),
        None => acc,
    }
}

/// The tokens of `s` from position `i` on, given the pending window start,
/// the in-string state, the count of open parentheses so far, and the tokens
/// already produced. Unbalanced marker counts fail at the end of the text.
pub open spec fn s_to_toks(
    s: Seq<char>,
    i: int,
    lexstart: int,
    instr: bool,
    depth: int,
    acc: Seq<VTok>,
) -> Result<Seq<VTok>, JtsErrType>
    decreases s.len() - i,
{
    if i < 0 || i >= s.len() {
        let acc2 = s_flush(acc, s.subrange(lexstart, s.len() as int));
        if depth == 0 {
            Ok(acc2)
        } else {
            Err(JtsErrType::UnbalancedParentheses)
        }
    } else {
        let c = s[i];
        if (instr && c != '"') || !TokType::spec_is_non_symbol(c) {
            s_to_toks(s, i + 1, lexstart, instr, depth, acc)
        } else {
            let acc1 = s_flush(acc, s.subrange(lexstart, i));
            let depth2 = if c == '(' {
                depth + 1
            } else if c == ')' {
                depth - 1
            } else {
                depth
            };
            let instr2 = if c == '"' {
                !instr
            } else {
                instr
            };
            let acc2 = s_flush(acc1, seq![c]);
            s_to_toks(s, i + 1, i + 1, instr2, depth2, acc2)
        }
    }
}

/// Splits raw text into tokens; unbalanced parenthesis counts are an error.
pub fn to_toks(src: &String) -> (r: JtsErr<Vec<Tok>>)
    ensures
        match r {
            Ok(toks) => s_to_toks(src@, 0, 0, false, 0, Seq::empty()) == Ok::<
                Seq<VTok>,
                JtsErrType,
            >(toks@.map_values(|t: Tok| t@)),
            Err(e) => s_to_toks(src@, 0, 0, false, 0, Seq::empty()) == Err::<
                Seq<VTok>,
                JtsErrType,
            >(e),
        },
{
    let s = src.as_str();
    let n = s.unicode_len();
    let mut toks: Vec<Tok> = Vec::new();
    let mut i: usize = 0;
    let mut lexstart: usize = 0;
    let mut instr = false;
    let mut opens: usize = 0;
    let mut closes: usize = 0;
    proof {
        assert(toks@.map_values(|t: Tok| t@) =~= Seq::<VTok>::empty());
    }
    while i < n
        invariant
            i <= n,
            lexstart <= i,
            opens <= i,
            closes <= i,
            n == s@.len(),
            s@ == src@,
            s_to_toks(src@, 0, 0, false, 0, Seq::empty()) == s_to_toks(
                src@,
                i as int,
                lexstart as int,
                instr,
                opens - closes,
                toks@.map_values(|t: Tok| t@),
            ),
        decreases n - i,
    {
        let c = s.get_char(i);
        if (instr && c != '"') || !TokType::is_non_symbol(c) {
            i = i + 1;
            continue;
        }
        let ghost pre = toks@.map_values(|t: Tok| t@);
        let win = s.substring_char(lexstart, i);
        let owned = win.to_owned();
        match to_tok(&owned, toks.len()) {
            Some(t) => {
                toks.push(t);
                proof {
                    assert(toks@.map_values(|tk: Tok| tk@) =~= s_flush(
                        pre,
                        src@.subrange(lexstart as int, i as int),
                    ));
                }
            },
            None => {
                proof {
                    assert(toks@.map_values(|tk: Tok| tk@) =~= s_flush(
                        pre,
                        src@.subrange(lexstart as int, i as int),
                    ));
                }
            },
        }
        if c == '(' {
            opens = opens + 1;
        } else if c == ')' {
            closes = closes + 1;
        } else if c == '"' {
            instr = !instr;
        }
        let ghost pre1 = toks@.map_values(|t: Tok| t@);
        let single = s.substring_char(i, i + 1);
        let owned1 = single.to_owned();
        proof {
            assert(owned1@ =~= seq![src@[i as int]]);
        }
        match to_tok(&owned1, toks.len()) {
            Some(t) => {
                toks.push(t);
                proof {
                    assert(toks@.map_values(|tk: Tok| tk@) =~= s_flush(pre1, seq![src@[i as int]]));
                }
            },
            None => {
                proof {
                    assert(toks@.map_values(|tk: Tok| tk@) =~= s_flush(pre1, seq![src@[i as int]]));
                }
            },
        }
        i = i + 1;
        lexstart = i;
    }
    let ghost pre = toks@.map_values(|t: Tok| t@);
    let win = s.substring_char(lexstart, n);
    let owned = win.to_owned();
    match to_tok(&owned, toks.len()) {
        Some(t) => {
            toks.push(t);
            proof {
                assert(toks@.map_values(|tk: Tok| tk@) =~= s_flush(
                    pre,
                    src@.subrange(lexstart as int, n as int),
                ));
            }
        },
        None => {
            proof {
                assert(toks@.map_values(|tk: Tok| tk@) =~= s_flush(
                    pre,
                    src@.subrange(lexstart as int, n as int),
                ));
            }
        },
    }
    if opens != closes {
        return Err(JtsErrType::UnbalancedParentheses);
    }
    Ok(toks)
}

} // verus!

//! The reader's two passes over the token stream: grouping into an
//! operator-tagged expression tree, rewriting the stream to materialize
//! quote, escape and apply semantics as ordinary calls, and interning the
//! result into cells owned by a module.

use vstd::prelude::*;
use crate::env::{
    lemma_env_lookup_range, s_add_symbol_to, s_env_lookup, s_lookup_in, s_mod_find,
    unique_sym_text, Env,
};
use crate::err::{JtsErr, JtsErrType};
use crate::lexer::{s_to_toks, to_toks};
use crate::model::{ids_ok, VEnv, VObj};
use crate::objects::{Node, Obj};
use crate::tokens::{
    flag_bit, s_any_flag, vexprs, Expr, Id, Tok, TokFlag, TokType, VExpr, VTok, FLAG_APPLY,
    FLAG_ESCAPE, FLAG_QUOTE,
};

verus! {

/// The model of a parser: its token stream and expression tree.
pub ghost struct VParser {
    pub tokens: Seq<VTok>,
    pub exprs: Seq<VExpr>,
}

/// Whether two token identities match: both present and equal.
pub open spec fn id_match(a: Option<usize>, b: Option<usize>) -> bool {
    a is Some && b is Some && a == b
}

/// The position of the first token from `i` on whose identity matches `id`.
pub open spec fn s_tok_pos(toks: Seq<VTok>, id: Option<usize>, i: int) -> Option<int>
    decreases toks.len() - i,
{
    if i < 0 || i >= toks.len() {
        None
    } else if id_match(toks[i].id, id) {
        Some(i)
    } else {
        s_tok_pos(toks, id, i + 1)
    }
}

/// The position of the nearest opening marker at or before `i`.
pub open spec fn s_prev_beg(toks: Seq<VTok>, i: int) -> Option<int>
    decreases i + 1,
{
    if i < 0 || i >= toks.len() {
        None
    } else if toks[i].tok_type == TokType::Beg {
        Some(i)
    } else {
        s_prev_beg(toks, i - 1)
    }
}

/// The first top-level node whose opening identity matches `id`.
pub open spec fn s_expr_at(exprs: Seq<VExpr>, id: Option<usize>) -> Option<VExpr>
    decreases exprs.len(),
{
    if exprs.len() == 0 {
        None
    } else if id_match(exprs[0].tok_beg, id) {
        Some(exprs[0])
    } else {
        s_expr_at(exprs.skip(1), id)
    }
}

/// A bare marker token materialized by the rewrite pass.
pub open spec fn op_vtok(t: TokType) -> VTok {
    VTok { source: Seq::empty(), tok_type: t, id: None }
}

/// A symbol token materialized by the rewrite pass, carrying an operator's
/// call name.
pub open spec fn sym_vtok(name: Seq<char>) -> VTok {
    VTok { source: name, tok_type: TokType::Symbol, id: None }
}

/// Wrapping a grouped node in a `(quote ...)` call: a closing marker goes
/// after its closing token and the opening marker and call name go before
/// its opening token.
pub open spec fn s_map_quote(toks: Seq<VTok>, e: VExpr) -> Result<Seq<VTok>, JtsErrType> {
    let bp = s_tok_pos(toks, e.tok_beg, 0);
    let ep = s_tok_pos(toks, e.tok_end, 0);
    match (bp, ep) {
        (Some(b), Some(en)) => Ok(
            toks.insert(en + 1, op_vtok(TokType::End)).insert(b, sym_vtok("quote"@)).insert(
                b,
                op_vtok(TokType::Beg),
            ),
        ),
        _ => Err(JtsErrType::ErrSpecialOp),
    }
}

/// Materializing an apply operator: the call name is spliced right after the
/// opening marker of the node's parent, which must be a top-level node.
pub open spec fn s_map_apply(toks: Seq<VTok>, tops: Seq<VExpr>, e: VExpr) -> Result<
    Seq<VTok>,
    JtsErrType,
> {
    match s_tok_pos(toks, e.tok_beg, 0) {
        None => Err(JtsErrType::ErrSpecialOp),
        Some(b) => match s_prev_beg(toks, b - 1) {
            None => Err(JtsErrType::ErrSpecialOp),
            Some(j) => match s_expr_at(tops, toks[j].id) {
                None => Err(JtsErrType::ErrSpecialOp),
                Some(parent) => match (
                    s_tok_pos(toks, parent.tok_beg, 0),
                    s_tok_pos(toks, parent.tok_end, 0),
                ) {
                    (Some(pb), Some(_)) => Ok(toks.insert(pb + 1, sym_vtok("apply"@))),
                    _ => Err(JtsErrType::ErrSpecialOp),
                },
            },
        },
    }
}

/// One materialization step for one node and one operator kind.
pub open spec fn s_map_expr(toks: Seq<VTok>, tops: Seq<VExpr>, e: VExpr, op: TokType) -> Result<
    Seq<VTok>,
    JtsErrType,
> {
    match op {
        TokType::Escape => match s_tok_pos(toks, e.tok_beg, 0) {
            None => Err(JtsErrType::ErrSpecialOp),
            Some(b) => Ok(toks.insert(b, op_vtok(TokType::Escape))),
        },
        TokType::Quote => s_map_quote(toks, e),
        TokType::Apply => s_map_apply(toks, tops, e),
        _ => Ok(toks),
    }
}

/// The selective quoting descent: an escaped node cancels the quote and is
/// left alone, a node free of escapes is wrapped whole, and a node holding
/// escapes deeper down is descended into.
pub open spec fn s_quote_desc(toks: Seq<VTok>, e: VExpr, f: nat) -> Result<Seq<VTok>, JtsErrType>
    decreases f, 1int, 0int,
{
    if f == 0 {
        Err(JtsErrType::StepLimit)
    } else if e.flag & FLAG_ESCAPE != 0 {
        Ok(toks)
    } else if !s_any_flag(e, TokType::Escape) {
        s_map_quote(toks, e)
    } else {
        s_quote_desc_seq(toks, e.exprs, 0, f)
    }
}

/// The quoting descent over a run of children, in order.
pub open spec fn s_quote_desc_seq(toks: Seq<VTok>, es: Seq<VExpr>, i: int, f: nat) -> Result<
    Seq<VTok>,
    JtsErrType,
>
    decreases f, 0int, es.len() - i,
{
    if i < 0 || i >= es.len() {
        Ok(toks)
    } else if f == 0 {
        Err(JtsErrType::StepLimit)
    } else {
        match s_quote_desc(toks, es[i], (f - 1) as nat) {
            Ok(t2) => s_quote_desc_seq(t2, es, i + 1, f),
            Err(er) => Err(er),
        }
    }
}

/// The rewrite of one node: a pending apply materializes, a pending quote
/// starts the selective descent, and the children follow in order.
pub open spec fn s_rewrite_expr(toks: Seq<VTok>, tops: Seq<VExpr>, e: VExpr, f: nat) -> Result<
    Seq<VTok>,
    JtsErrType,
>
    decreases f, 3int, 0int,
{
    if f == 0 {
        Err(JtsErrType::StepLimit)
    } else {
        let t1 = if e.flag & FLAG_APPLY != 0 {
            s_map_apply(toks, tops, e)
        } else {
            Ok(toks)
        };
        match t1 {
            Err(er) => Err(er),
            Ok(t1v) => {
                let t2 = if e.flag & FLAG_QUOTE != 0 {
                    s_quote_desc(t1v, e, f)
                } else {
                    Ok(t1v)
                };
                match t2 {
                    Err(er) => Err(er),
                    Ok(t2v) => s_rewrite_seq(t2v, tops, e.exprs, 0, f),
                }
            },
        }
    }
}

/// The rewrite over a run of nodes, in order.
pub open spec fn s_rewrite_seq(toks: Seq<VTok>, tops: Seq<VExpr>, es: Seq<VExpr>, i: int, f: nat)
    -> Result<Seq<VTok>, JtsErrType>
    decreases f, 2int, es.len() - i,
{
    if i < 0 || i >= es.len() {
        Ok(toks)
    } else if f == 0 {
        Err(JtsErrType::StepLimit)
    } else {
        match s_rewrite_expr(toks, tops, es[i], (f - 1) as nat) {
            Ok(t2) => s_rewrite_seq(t2, tops, es, i + 1, f),
            Err(er) => Err(er),
        }
    }
}

/// Whether a token survives the rewrite pass: operators are consumed,
/// symbols and markers stay.
pub open spec fn keeps_tok(t: VTok) -> bool {
    t.tok_type == TokType::Symbol || t.tok_type == TokType::Beg || t.tok_type == TokType::End
}

/// The tokens left after the rewrite pass drops the operator tokens.
pub open spec fn s_retain(toks: Seq<VTok>) -> Seq<VTok> {
    toks.filter(|t: VTok| keeps_tok(t))
}

/// The whole rewrite pass: every top-level node rewrites in order, then the
/// operator tokens leave the stream.
pub open spec fn s_extract_opers(toks: Seq<VTok>, tops: Seq<VExpr>, f: nat) -> Result<
    Seq<VTok>,
    JtsErrType,
> {
    match s_rewrite_seq(toks, tops, tops, 0, f) {
        Ok(t2) => Ok(s_retain(t2)),
        Err(er) => Err(er),
    }
}

/// The grouping pass: opening markers push a node carrying the pending
/// operators, closing markers fold the node into its parent, symbols become
/// leaves, and operators accumulate onto the flag; a closing marker with
/// nothing open is unbalanced.
pub open spec fn s_extract_exprs(toks: Seq<VTok>, i: int, stack: Seq<VExpr>, flag: u8) -> Result<
    Seq<VExpr>,
    JtsErrType,
>
    decreases toks.len() - i,
{
    if i < 0 || i >= toks.len() {
        Ok(stack)
    } else {
        let t = toks[i];
        match t.tok_type {
            TokType::Beg => s_extract_exprs(
                toks,
                i + 1,
                stack.push(
                    VExpr { tok_beg: t.id, tok_end: None, flag: flag, exprs: Seq::empty() },
                ),
                0,
            ),
            TokType::End => {
                if stack.len() == 0 {
                    Err(JtsErrType::UnbalancedParentheses)
                } else {
                    let e = VExpr { tok_end: t.id, ..stack.last() };
                    let stack1 = stack.drop_last();
                    if stack1.len() == 0 {
                        s_extract_exprs(toks, i + 1, stack1.push(e), flag)
                    } else {
                        let p = stack1.last();
                        s_extract_exprs(
                            toks,
                            i + 1,
                            stack1.update(stack1.len() - 1, VExpr { exprs: p.exprs.push(e), ..p }),
                            flag,
                        )
                    }
                }
            },
            TokType::Symbol => {
                let c = VExpr { tok_beg: t.id, tok_end: t.id, flag: flag, exprs: Seq::empty() };
                if stack.len() == 0 {
                    s_extract_exprs(toks, i + 1, stack.push(c), 0)
                } else {
                    let p = stack.last();
                    s_extract_exprs(
                        toks,
                        i + 1,
                        stack.update(stack.len() - 1, VExpr { exprs: p.exprs.push(c), ..p }),
                        0,
                    )
                }
            },
            _ => s_extract_exprs(toks, i + 1, stack, flag | flag_bit(t.tok_type)),
        }
    }
}

/// Interning the rewritten stream into cells of the named module: a closing
/// marker interns the grouped node under a hidden unique symbol, a symbol
/// token interns a literal on first sight and then resolves globally;
/// operator tokens may not remain, and marker counts must balance.
pub open spec fn s_parse_tokens(
    e: VEnv,
    toks: Seq<VTok>,
    i: int,
    stack: Seq<Seq<usize>>,
    cur: Seq<usize>,
    parenth: int,
    mod_name: Seq<char>,
) -> (VEnv, Result<Seq<usize>, JtsErrType>)
    decreases toks.len() - i,
{
    if i < 0 || i >= toks.len() {
        if parenth == 0 {
            (e, Ok(cur))
        } else {
            (e, Err(JtsErrType::UnbalancedParentheses))
        }
    } else {
        let t = toks[i];
        match t.tok_type {
            TokType::Beg => s_parse_tokens(
                e,
                toks,
                i + 1,
                stack.push(cur),
                Seq::empty(),
                parenth + 1,
                mod_name,
            ),
            TokType::End => {
                if stack.len() == 0 {
                    s_parse_tokens(e, toks, i + 1, stack, cur, parenth - 1, mod_name)
                } else {
                    let sym = unique_sym_text(e.gen_sym);
                    let (e2, r) = s_add_symbol_to(e, mod_name, sym, VObj::List(cur));
                    match r {
                        Ok(id) => s_parse_tokens(
                            e2,
                            toks,
                            i + 1,
                            stack.drop_last(),
                            stack.last().push(id),
                            parenth - 1,
                            mod_name,
                        ),
                        Err(er) => (e2, Err(er)),
                    }
                }
            },
            TokType::Symbol => {
                match s_mod_find(e.modules, mod_name) {
                    None => (e, Err(JtsErrType::MissingModule)),
                    Some(m) => {
                        let interned: (VEnv, Result<(), JtsErrType>) = match s_lookup_in(
                            e,
                            m as int,
                            t.source,
                        ) {
                            Some(_) => (e, Ok(())),
                            None => {
                                let (e2, r) = s_add_symbol_to(
                                    e,
                                    mod_name,
                                    t.source,
                                    Obj::spec_from_string(t.source),
                                );
                                match r {
                                    Ok(_) => (e2, Ok(())),
                                    Err(er) => (e2, Err(er)),
                                }
                            },
                        };
                        match interned.1 {
                            Err(er) => (interned.0, Err(er)),
                            Ok(_) => match s_env_lookup(interned.0, 0, t.source) {
                                Some(c) => s_parse_tokens(
                                    interned.0,
                                    toks,
                                    i + 1,
                                    stack,
                                    cur.push(c),
                                    parenth,
                                    mod_name,
                                ),
                                None => (interned.0, Err(JtsErrType::MissingSymbol)),
                            },
                        }
                    },
                }
            },
            _ => (e, Err(JtsErrType::ErrSpecialOp)),
        }
    }
}

/// The reader: the token stream and the expression tree grouped from it.
pub struct Parser {
    tokens: Vec<Tok>,
    exprs: Vec<Expr>,
}

impl View for Parser {
    type V = VParser;

    closed spec fn view(&self) -> VParser {
        VParser {
            tokens: self.tokens@.map_values(|t: Tok| t@),
            exprs: vexprs(self.exprs@),
        }
    }
}

/// What reading source text yields: its tokens and their grouping.
pub open spec fn s_from_string(src: Seq<char>) -> Result<VParser, JtsErrType> {
    match s_to_toks(src, 0, 0, false, 0, Seq::empty()) {
        Err(er) => Err(er),
        Ok(toks) => match s_extract_exprs(toks, 0, Seq::empty(), 0) {
            Err(er) => Err(er),
            Ok(exprs) => Ok(VParser { tokens: toks, exprs: exprs }),
        },
    }
}

impl Parser {
    /// Splits source text into tokens.
    pub fn extract_tokens(src: &String) -> (r: JtsErr<Vec<Tok>>)
        ensures
            match r {
                Ok(toks) => s_to_toks(src@, 0, 0, false, 0, Seq::empty()) == Ok::<
                    Seq<VTok>,
                    JtsErrType,
                >(toks@.map_values(|t: Tok| t@)),
                Err(e) => s_to_toks(src@, 0, 0, false, 0, Seq::empty()) == Err::<
                    Seq<VTok>,
                    JtsErrType,
                >(e),
            },
    {
        to_toks(src)
    }

    /// Groups a token stream into the operator-tagged expression tree.
    pub fn extract_exprs(toks: &Vec<Tok>) -> (r: JtsErr<Vec<Expr>>)
        ensures
            match r {
                Ok(es) => s_extract_exprs(toks@.map_values(|t: Tok| t@), 0, Seq::empty(), 0)
                    == Ok::<Seq<VExpr>, JtsErrType>(vexprs(es@)),
                Err(e) => s_extract_exprs(toks@.map_values(|t: Tok| t@), 0, Seq::empty(), 0)
                    == Err::<Seq<VExpr>, JtsErrType>(e),
            },
    {
        let ghost tv = toks@.map_values(|t: Tok| t@);
        let mut stack: Vec<Expr> = Vec::new();
        let mut flag = TokFlag::empty();
        let mut i: usize = 0;
        proof {
            assert(vexprs(stack@) =~= Seq::<VExpr>::empty());
        }
        while i < toks.len()
            invariant
                i <= toks.len(),
                tv == toks@.map_values(|t: Tok| t@),
                tv.len() == toks@.len(),
                s_extract_exprs(tv, 0, Seq::empty(), 0) == s_extract_exprs(
                    tv,
                    i as int,
                    vexprs(stack@),
                    flag.bits,
                ),
            decreases toks.len() - i,
        {
            let ghost gstack = vexprs(stack@);
            proof {
                assert(tv[i as int] == toks@[i as int]@);
            }
            let tt = toks[i].tok_type;
            match tt {
                TokType::Beg => {
                    let fl = flag;
                    let e = Expr::new(toks[i].id(), fl);
                    stack.push(e);
                    flag = TokFlag::empty();
                    proof {
                        assert(vexprs(stack@) =~~= gstack.push(
                            VExpr {
                                tok_beg: tv[i as int].id,
                                tok_end: None,
                                flag: fl.bits,
                                exprs: Seq::empty(),
                            },
                        ));
                    }
                },
                TokType::End => {
                    let mut e = match stack.pop() {
                        Some(e) => e,
                        None => {
                            return Err(JtsErrType::UnbalancedParentheses);
                        },
                    };
                    e.tok_end = toks[i].id().clone();
                    let ghost ev = e@;
                    proof {
                        assert(ev == (VExpr { tok_end: tv[i as int].id, ..gstack.last() }));
                    }
                    if stack.len() == 0 {
                        stack.push(e);
                        proof {
                            assert(vexprs(stack@) =~~= gstack.drop_last().push(ev));
                        }
                    } else {
                        let n = stack.len();
                        let ghost parent = vexprs(stack@)[n - 1];
                        stack[n - 1].exprs.push(e);
                        proof {
                            assert(stack@[n - 1].vw().exprs =~= parent.exprs.push(ev));
                            assert(stack@[n - 1].vw() == (VExpr {
                                exprs: parent.exprs.push(ev),
                                ..parent
                            }));
                            assert(vexprs(stack@) =~~= gstack.drop_last().update(
                                n - 1,
                                VExpr { exprs: parent.exprs.push(ev), ..parent },
                            ));
                        }
                    }
                },
                TokType::Symbol => {
                    let fl = flag;
                    let c = Expr::from_parts(toks[i].id(), toks[i].id(), fl, Vec::new());
                    let ghost cv = c@;
                    proof {
                        assert(cv.exprs =~= Seq::<VExpr>::empty());
                        assert(cv == (VExpr {
                            tok_beg: tv[i as int].id,
                            tok_end: tv[i as int].id,
                            flag: fl.bits,
                            exprs: Seq::<VExpr>::empty(),
                        }));
                    }
                    if stack.len() == 0 {
                        stack.push(c);
                        proof {
                            assert(vexprs(stack@) =~~= gstack.push(cv));
                        }
                    } else {
                        let n = stack.len();
                        let ghost parent = vexprs(stack@)[n - 1];
                        stack[n - 1].exprs.push(c);
                        proof {
                            assert(stack@[n - 1].vw().exprs =~= parent.exprs.push(cv));
                            assert(stack@[n - 1].vw() == (VExpr {
                                exprs: parent.exprs.push(cv),
                                ..parent
                            }));
                            assert(vexprs(stack@) =~~= gstack.update(
                                n - 1,
                                VExpr { exprs: parent.exprs.push(cv), ..parent },
                            ));
                        }
                    }
                    flag = TokFlag::empty();
                },
                _ => {
                    flag.add(tt);
                },
            }
            i = i + 1;
        }
        Ok(stack)
    }

    /// Reads source text into a parser: tokens split, tree grouped.
    pub fn from_string(src: &String) -> (r: JtsErr<Parser>)
        ensures
            match r {
                Ok(p) => s_from_string(src@) == Ok::<VParser, JtsErrType>(p@),
                Err(e) => s_from_string(src@) == Err::<VParser, JtsErrType>(e),
            },
    {
        let tokens = match Parser::extract_tokens(src) {
            Ok(t) => t,
            Err(e) => {
                return Err(e);
            },
        };
        let exprs = match Parser::extract_exprs(&tokens) {
            Ok(es) => es,
            Err(e) => {
                return Err(e);
            },
        };
        Ok(Parser { tokens, exprs })
    }

    /// The positions of a node's opening and closing tokens in the stream;
    /// a node whose tokens are gone is a misplaced operator.
    pub fn index_at_expr(&self, expr: &Expr) -> (r: JtsErr<(usize, usize)>)
        ensures
            match r {
                Ok(p) => s_tok_pos(self@.tokens, expr@.tok_beg, 0) == Some(p.0 as int)
                    && s_tok_pos(self@.tokens, expr@.tok_end, 0) == Some(p.1 as int) && p.0
                    < self@.tokens.len() && p.1 < self@.tokens.len(),
                Err(e) => e == JtsErrType::ErrSpecialOp && (s_tok_pos(
                    self@.tokens,
                    expr@.tok_beg,
                    0,
                ) is None || s_tok_pos(self@.tokens, expr@.tok_end, 0) is None),
            },
    {
        let beg = match self.tok_pos(&expr.tok_beg) {
            Some(b) => b,
            None => {
                return Err(JtsErrType::ErrSpecialOp);
            },
        };
        let end = match self.tok_pos(&expr.tok_end) {
            Some(e) => e,
            None => {
                return Err(JtsErrType::ErrSpecialOp);
            },
        };
        Ok((beg, end))
    }

    /// The position of the first token whose identity matches `id`.
    fn tok_pos(&self, id: &Id) -> (r: Option<usize>)
        ensures
            match r {
                Some(p) => s_tok_pos(self@.tokens, id.id, 0) == Some(p as int) && p
                    < self@.tokens.len(),
                None => s_tok_pos(self@.tokens, id.id, 0) is None,
            },
    {
        let ghost tv = self@.tokens;
        let mut i: usize = 0;
        while i < self.tokens.len()
            invariant
                i <= self.tokens.len(),
                tv == self@.tokens,
                tv.len() == self.tokens@.len(),
                s_tok_pos(tv, id.id, 0) == s_tok_pos(tv, id.id, i as int),
            decreases self.tokens.len() - i,
        {
            proof {
                assert(tv[i as int] == self.tokens@[i as int]@);
            }
            if self.tokens[i].id().eq(id) {
                return Some(i);
            }
            i = i + 1;
        }
        None
    }

    /// The first top-level node whose opening identity matches `tok_beg`.
    pub fn expr_at_tok(&self, tok_beg: &Id) -> (r: Option<&Expr>)
        ensures
            match r {
                Some(e) => s_expr_at(self@.exprs, tok_beg.id) == Some(e@),
                None => s_expr_at(self@.exprs, tok_beg.id) is None,
            },
    {
        let ghost ev = self@.exprs;
        proof {
            assert(ev.skip(0) =~= ev);
        }
        let mut i: usize = 0;
        while i < self.exprs.len()
            invariant
                i <= self.exprs.len(),
                ev == self@.exprs,
                ev.len() == self.exprs@.len(),
                s_expr_at(ev, tok_beg.id) == s_expr_at(ev.skip(i as int), tok_beg.id),
            decreases self.exprs.len() - i,
        {
            proof {
                assert(ev[i as int] == self.exprs@[i as int].vw());
                assert(ev.skip(i as int)[0] == ev[i as int]);
                assert(ev.skip(i as int).skip(1) =~= ev.skip(i + 1));
            }
            if self.exprs[i].tok_beg.eq(tok_beg) {
                return Some(&self.exprs[i]);
            }
            i = i + 1;
        }
        None
    }

    /// The node enclosing `expr`: the top-level node opened by the nearest
    /// opening marker before `expr`'s own; anything else is a misplaced
    /// operator.
    pub fn parent_expr(&self, expr: &Expr) -> (r: JtsErr<&Expr>)
        ensures
            match r {
                Ok(p) => ({
                    let bp = s_tok_pos(self@.tokens, expr@.tok_beg, 0);
                    bp matches Some(b) && s_prev_beg(self@.tokens, b - 1) matches Some(j)
                        && s_expr_at(self@.exprs, self@.tokens[j].id) == Some(p@)
                }),
                Err(e) => e == JtsErrType::ErrSpecialOp && ({
                    let bp = s_tok_pos(self@.tokens, expr@.tok_beg, 0);
                    ||| bp is None
                    ||| (bp matches Some(b) && s_prev_beg(self@.tokens, b - 1) is None)
                    ||| (bp matches Some(b) && s_prev_beg(self@.tokens, b - 1) matches Some(j)
                        && s_expr_at(self@.exprs, self@.tokens[j].id) is None)
                }),
            },
    {
        let beg = match self.tok_pos(&expr.tok_beg) {
            Some(b) => b,
            None => {
                return Err(JtsErrType::ErrSpecialOp);
            },
        };
        let ghost tv = self@.tokens;
        if beg == 0 {
            assert(s_prev_beg(tv, beg - 1) is None);
            return Err(JtsErrType::ErrSpecialOp);
        }
        let mut j: usize = beg - 1;
        loop
            invariant
                j < tv.len(),
                tv == self@.tokens,
                tv.len() == self.tokens@.len(),
                s_prev_beg(tv, beg - 1) == s_prev_beg(tv, j as int),
                s_tok_pos(self@.tokens, expr@.tok_beg, 0) == Some(beg as int),
            decreases j,
        {
            proof {
                assert(tv[j as int] == self.tokens@[j as int]@);
            }
            if self.tokens[j].tok_type == TokType::Beg {
                assert(s_prev_beg(tv, j as int) == Some(j as int));
                let found = self.tokens[j].id().clone();
                match self.expr_at_tok(&found) {
                    Some(p) => {
                        return Ok(p);
                    },
                    None => {
                        return Err(JtsErrType::ErrSpecialOp);
                    },
                }
            }
            if j == 0 {
                assert(s_prev_beg(tv, 0) == s_prev_beg(tv, -1));
                assert(s_prev_beg(tv, beg - 1) is None);
                return Err(JtsErrType::ErrSpecialOp);
            }
            j = j - 1;
        }
    }

    /// Materializes one operator for one node by rewriting the token stream.
    pub fn map_expr(&mut self, expr: &Expr, op: TokType) -> (r: JtsErr)
        ensures
            final(self)@.exprs == old(self)@.exprs,
            match r {
                Ok(_) => s_map_expr(old(self)@.tokens, old(self)@.exprs, expr@, op) == Ok::<
                    Seq<VTok>,
                    JtsErrType,
                >(final(self)@.tokens),
                Err(e) => s_map_expr(old(self)@.tokens, old(self)@.exprs, expr@, op) == Err::<
                    Seq<VTok>,
                    JtsErrType,
                >(e) && final(self)@.tokens == old(self)@.tokens,
            },
    {
        match op {
            TokType::Escape => {
                let beg = match self.tok_pos(&expr.tok_beg) {
                    Some(b) => b,
                    None => {
                        return Err(JtsErrType::ErrSpecialOp);
                    },
                };
                let ghost pre = self@.tokens;
                self.tokens.insert(beg, Tok::new_op(TokType::Escape));
                proof {
                    assert(self@.tokens =~= pre.insert(
                        beg as int,
                        op_vtok(TokType::Escape),
                    ));
                }
                Ok(())
            },
            TokType::Quote => self.map_quote(expr),
            TokType::Apply => self.map_apply(expr),
            _ => Ok(()),
        }
    }

    /// Wraps a grouped node in a `(quote ...)` call.
    fn map_quote(&mut self, expr: &Expr) -> (r: JtsErr)
        ensures
            final(self)@.exprs == old(self)@.exprs,
            match r {
                Ok(_) => s_map_quote(old(self)@.tokens, expr@) == Ok::<Seq<VTok>, JtsErrType>(
                    final(self)@.tokens,
                ),
                Err(e) => s_map_quote(old(self)@.tokens, expr@) == Err::<Seq<VTok>, JtsErrType>(e)
                    && final(self)@.tokens == old(self)@.tokens,
            },
    {
        let (beg, end) = match self.index_at_expr(expr) {
            Ok(p) => p,
            Err(e) => {
                return Err(e);
            },
        };
        let ghost pre = self@.tokens;
        proof {
            reveal_strlit("quote");
            vstd::std_specs::vec::axiom_spec_len(&self.tokens);
        }
        let name = String::from_str("quote");
        self.tokens.insert(end + 1, Tok::new_op(TokType::End));
        self.tokens.insert(beg, Tok::new(&name, TokType::Symbol, Id::new_uninit()));
        self.tokens.insert(beg, Tok::new_op(TokType::Beg));
        proof {
            assert(self@.tokens =~= pre.insert(end + 1, op_vtok(TokType::End)).insert(
                beg as int,
                sym_vtok("quote"@),
            ).insert(beg as int, op_vtok(TokType::Beg)));
        }
        Ok(())
    }

    /// Splices an `apply` call name after the opening marker of the node's
    /// parent.
    fn map_apply(&mut self, expr: &Expr) -> (r: JtsErr)
        ensures
            final(self)@.exprs == old(self)@.exprs,
            match r {
                Ok(_) => s_map_apply(old(self)@.tokens, old(self)@.exprs, expr@) == Ok::<
                    Seq<VTok>,
                    JtsErrType,
                >(final(self)@.tokens),
                Err(e) => s_map_apply(old(self)@.tokens, old(self)@.exprs, expr@) == Err::<
                    Seq<VTok>,
                    JtsErrType,
                >(e) && final(self)@.tokens == old(self)@.tokens,
            },
    {
        let parent = match self.parent_expr(expr) {
            Ok(p) => p.clone(),
            Err(e) => {
                return Err(e);
            },
        };
        let (parent_beg, _) = match self.index_at_expr(&parent) {
            Ok(p) => p,
            Err(e) => {
                return Err(e);
            },
        };
        let ghost pre = self@.tokens;
        proof {
            reveal_strlit("apply");
            vstd::std_specs::vec::axiom_spec_len(&self.tokens);
        }
        let name = String::from_str("apply");
        self.tokens.insert(parent_beg + 1, Tok::new(&name, TokType::Symbol, Id::new_uninit()));
        proof {
            assert(self@.tokens =~= pre.insert(parent_beg + 1, sym_vtok("apply"@)));
        }
        Ok(())
    }

    /// The whole rewrite pass: every top-level node rewrites in order, then
    /// the operator tokens leave the stream.
    pub fn extract_opers(&mut self) -> (r: JtsErr)
        ensures
            final(self)@.exprs == old(self)@.exprs,
            match r {
                Ok(_) => s_extract_opers(old(self)@.tokens, old(self)@.exprs, u64::MAX as nat)
                    == Ok::<Seq<VTok>, JtsErrType>(final(self)@.tokens),
                Err(e) => s_extract_opers(old(self)@.tokens, old(self)@.exprs, u64::MAX as nat)
                    == Err::<Seq<VTok>, JtsErrType>(e),
            },
    {
        let ghost topsv = self@.exprs;
        let mut tops: Vec<Expr> = Vec::new();
        let mut k: usize = 0;
        proof {
            assert(vexprs(tops@) =~= topsv.take(0));
        }
        while k < self.exprs.len()
            invariant
                k <= self.exprs.len(),
                topsv == self@.exprs,
                topsv.len() == self.exprs@.len(),
                tops@.len() == k,
                forall|j: int| 0 <= j < k ==> (#[trigger] tops@[j]).vw() == topsv[j],
            decreases self.exprs.len() - k,
        {
            proof {
                assert(topsv[k as int] == self.exprs@[k as int].vw());
            }
            let c = self.exprs[k].clone();
            tops.push(c);
            k = k + 1;
        }
        proof {
            assert(vexprs(tops@) =~= topsv);
        }
        let mut i: usize = 0;
        let ghost toks0 = self@.tokens;
        while i < tops.len()
            invariant
                i <= tops.len(),
                vexprs(tops@) == topsv,
                tops@.len() == topsv.len(),
                self@.exprs == topsv,
                topsv == old(self)@.exprs,
                toks0 == old(self)@.tokens,
                s_rewrite_seq(toks0, topsv, topsv, 0, u64::MAX as nat) == s_rewrite_seq(
                    self@.tokens,
                    topsv,
                    topsv,
                    i as int,
                    u64::MAX as nat,
                ),
            decreases tops.len() - i,
        {
            proof {
                assert(tops@[i as int].vw() == vexprs(tops@)[i as int]);
            }
            proof {
                assert(topsv[i as int] == tops@[i as int].vw());
            }
            match self.rewrite_expr(&tops[i], u64::MAX - 1) {
                Ok(_) => {},
                Err(e) => {
                    return Err(e);
                },
            }
            i = i + 1;
        }
        let ghost rewritten = self@.tokens;
        let mut kept: Vec<Tok> = Vec::new();
        let mut j: usize = 0;
        proof {
            reveal(Seq::filter);
            assert(rewritten.take(0).filter(|t: VTok| keeps_tok(t)) =~= kept@.map_values(
                |t: Tok| t@,
            ));
        }
        while j < self.tokens.len()
            invariant
                j <= self.tokens.len(),
                rewritten == self@.tokens,
                rewritten.len() == self.tokens@.len(),
                self@.exprs == old(self)@.exprs,
                topsv == old(self)@.exprs,
                toks0 == old(self)@.tokens,
                s_rewrite_seq(toks0, topsv, topsv, 0, u64::MAX as nat) == Ok::<
                    Seq<VTok>,
                    JtsErrType,
                >(rewritten),
                kept@.map_values(|t: Tok| t@) == rewritten.take(j as int).filter(
                    |t: VTok| keeps_tok(t),
                ),
            decreases self.tokens.len() - j,
        {
            let ghost pre = kept@.map_values(|t: Tok| t@);
            proof {
                reveal(Seq::filter);
                assert(rewritten[j as int] == self.tokens@[j as int]@);
                assert(rewritten.take(j + 1).drop_last() =~= rewritten.take(j as int));
                assert(rewritten.take(j + 1).last() == rewritten[j as int]);
                assert(rewritten.take(j + 1).filter(|t: VTok| keeps_tok(t)) == if keeps_tok(
                    rewritten[j as int],
                ) {
                    rewritten.take(j as int).filter(|t: VTok| keeps_tok(t)).push(
                        rewritten[j as int],
                    )
                } else {
                    rewritten.take(j as int).filter(|t: VTok| keeps_tok(t))
                });
            }
            let keep = match self.tokens[j].tok_type {
                TokType::Symbol | TokType::Beg | TokType::End => true,
                _ => false,
            };
            if keep {
                let t = self.tokens[j].clone();
                kept.push(t);
                proof {
                    assert(kept@.map_values(|t: Tok| t@) =~= pre.push(rewritten[j as int]));
                }
            }
            j = j + 1;
        }
        proof {
            reveal(Seq::filter);
            assert(rewritten.take(rewritten.len() as int) =~= rewritten);
        }
        self.tokens = kept;
        Ok(())
    }

    /// The rewrite of one node: a pending apply materializes, a pending
    /// quote starts the selective descent, and the children follow in order.
    fn rewrite_expr(&mut self, e: &Expr, fuel: u64) -> (r: JtsErr)
        ensures
            final(self)@.exprs == old(self)@.exprs,
            match r {
                Ok(_) => s_rewrite_expr(old(self)@.tokens, old(self)@.exprs, e@, fuel as nat)
                    == Ok::<Seq<VTok>, JtsErrType>(final(self)@.tokens),
                Err(er) => s_rewrite_expr(old(self)@.tokens, old(self)@.exprs, e@, fuel as nat)
                    == Err::<Seq<VTok>, JtsErrType>(er),
            },
        decreases fuel, 3int, 0int,
    {
        if fuel == 0 {
            return Err(JtsErrType::StepLimit);
        }
        if e.flag.has(TokType::Apply) {
            match self.map_apply(e) {
                Ok(_) => {},
                Err(er) => {
                    return Err(er);
                },
            }
        }
        if e.flag.has(TokType::Quote) {
            match self.quote_desc(e, fuel) {
                Ok(_) => {},
                Err(er) => {
                    return Err(er);
                },
            }
        }
        let ghost mid = self@.tokens;
        proof {
            assert(s_rewrite_expr(old(self)@.tokens, old(self)@.exprs, e@, fuel as nat)
                == s_rewrite_seq(mid, old(self)@.exprs, e@.exprs, 0, fuel as nat));
        }
        let mut i: usize = 0;
        while i < e.exprs.len()
            invariant
                i <= e.exprs.len(),
                fuel >= 1,
                self@.exprs == old(self)@.exprs,
                e@.exprs.len() == e.exprs@.len(),
                s_rewrite_expr(old(self)@.tokens, old(self)@.exprs, e@, fuel as nat)
                    == s_rewrite_seq(
                    self@.tokens,
                    old(self)@.exprs,
                    e@.exprs,
                    i as int,
                    fuel as nat,
                ),
            decreases e.exprs.len() - i,
        {
            proof {
                assert(e@.exprs[i as int] == e.exprs@[i as int].vw());
            }
            match self.rewrite_expr(&e.exprs[i], fuel - 1) {
                Ok(_) => {},
                Err(er) => {
                    return Err(er);
                },
            }
            i = i + 1;
        }
        Ok(())
    }

    /// The selective quoting descent from one node.
    fn quote_desc(&mut self, e: &Expr, fuel: u64) -> (r: JtsErr)
        ensures
            final(self)@.exprs == old(self)@.exprs,
            match r {
                Ok(_) => s_quote_desc(old(self)@.tokens, e@, fuel as nat) == Ok::<
                    Seq<VTok>,
                    JtsErrType,
                >(final(self)@.tokens),
                Err(er) => s_quote_desc(old(self)@.tokens, e@, fuel as nat) == Err::<
                    Seq<VTok>,
                    JtsErrType,
                >(er),
            },
        decreases fuel, 1int, 0int,
    {
        if fuel == 0 {
            return Err(JtsErrType::StepLimit);
        }
        if e.flag.has(TokType::Escape) {
            return Ok(());
        }
        if !e.any(TokType::Escape) {
            return self.map_quote(e);
        }
        let ghost mid = self@.tokens;
        proof {
            assert(s_quote_desc(old(self)@.tokens, e@, fuel as nat) == s_quote_desc_seq(
                mid,
                e@.exprs,
                0,
                fuel as nat,
            ));
        }
        let mut i: usize = 0;
        while i < e.exprs.len()
            invariant
                i <= e.exprs.len(),
                fuel >= 1,
                self@.exprs == old(self)@.exprs,
                e@.exprs.len() == e.exprs@.len(),
                s_quote_desc(old(self)@.tokens, e@, fuel as nat) == s_quote_desc_seq(
                    self@.tokens,
                    e@.exprs,
                    i as int,
                    fuel as nat,
                ),
            decreases e.exprs.len() - i,
        {
            proof {
                assert(e@.exprs[i as int] == e.exprs@[i as int].vw());
            }
            match self.quote_desc(&e.exprs[i], fuel - 1) {
                Ok(_) => {},
                Err(er) => {
                    return Err(er);
                },
            }
            i = i + 1;
        }
        Ok(())
    }

    /// Rewrites the stream and interns it into cells of the named module,
    /// returning the body node of top-level forms read; marker counts must
    /// balance.
    pub fn parse_tokens(&mut self, env: &mut Env, mod_id: &String) -> (r: JtsErr<Node>)
        requires
            old(env).inv(),
        ensures
            final(env).inv(),
            old(env)@.cells.len() <= final(env)@.cells.len(),
            ({
                let (e2, rr) = s_parse(old(self)@, old(env)@, mod_id@);
                &&& final(env)@ == e2
                &&& match (r, rr) {
                    (Ok(n), Ok(ids)) => n@ == ids && ids_ok(ids, final(env)@.cells.len()),
                    (Err(a), Err(b)) => a == b,
                    _ => false,
                }
            }),
    {
        match self.extract_opers() {
            Ok(_) => {},
            Err(e) => {
                return Err(e);
            },
        }
        let ghost tv = self@.tokens;
        let ghost e0 = env@;
        let mut stack: Vec<Node> = Vec::new();
        let mut cur = Node::default();
        let mut opens: usize = 0;
        let mut closes: usize = 0;
        let mut i: usize = 0;
        proof {
            assert(stack@.map_values(|n: Node| n@) =~= Seq::<Seq<usize>>::empty());
            assert(cur@ =~= Seq::<usize>::empty());
        }
        while i < self.tokens.len()
            invariant
                i <= self.tokens.len(),
                opens <= i,
                closes <= i,
                env.inv(),
                e0 == old(env)@,
                e0.cells.len() <= env@.cells.len(),
                tv == self@.tokens,
                tv.len() == self.tokens@.len(),
                ids_ok(cur@, env@.cells.len()),
                stack_ids_ok(stack@, env@.cells.len()),
                s_parse(old(self)@, e0, mod_id@) == s_parse_tokens(
                    env@,
                    tv,
                    i as int,
                    stack@.map_values(|n: Node| n@),
                    cur@,
                    opens - closes,
                    mod_id@,
                ),
            decreases self.tokens.len() - i,
        {
            let ghost gstack = stack@.map_values(|n: Node| n@);
            proof {
                assert(tv[i as int] == self.tokens@[i as int]@);
            }
            match self.tokens[i].tok_type {
                TokType::Beg => {
                    opens = opens + 1;
                    let ghost curv = cur@;
                    stack.push(cur);
                    cur = Node::default();
                    proof {
                        assert(stack@.map_values(|n: Node| n@) =~= gstack.push(curv));
                        assert(cur@ =~= Seq::<usize>::empty());
                    }
                },
                TokType::End => {
                    closes = closes + 1;
                    match stack.pop() {
                        Some(prev) => {
                            let sym = env.unique_symbol();
                            let ghost pre_len = env@.cells.len();
                            let id = match env.add_symbol_to(mod_id, &sym, Obj::List(cur)) {
                                Ok(id) => id,
                                Err(e) => {
                                    return Err(e);
                                },
                            };
                            cur = prev;
                            cur.args.push(id);
                            proof {
                                assert(stack@.map_values(|n: Node| n@) =~= gstack.drop_last());
                                assert(cur@ =~= gstack.last().push(id));
                                assert(id < env@.cells.len());
                                assert forall|k: int|
                                    0 <= k < stack@.len() implies ids_ok(
                                    (#[trigger] stack@[k])@,
                                    env@.cells.len(),
                                ) by {
                                    assert(gstack[k] == stack@[k]@);
                                    crate::model::lemma_ids_ok_grow(
                                        gstack[k],
                                        pre_len,
                                        env@.cells.len(),
                                    );
                                }
                                crate::model::lemma_ids_ok_grow(
                                    gstack.last(),
                                    pre_len,
                                    env@.cells.len(),
                                );
                            }
                        },
                        None => {},
                    }
                },
                TokType::Symbol => {
                    let m = match env.module(mod_id) {
                        Ok(m) => m,
                        Err(e) => {
                            return Err(e);
                        },
                    };
                    let ghost pre_len = env@.cells.len();
                    let found = env.lookup_in(m, &self.tokens[i].source);
                    if found.is_none() {
                        let lit = Obj::from_string(&self.tokens[i].source);
                        match env.add_symbol_to(mod_id, &self.tokens[i].source, lit) {
                            Ok(_) => {},
                            Err(e) => {
                                return Err(e);
                            },
                        }
                    }
                    let c = match env.symbol(&self.tokens[i].source) {
                        Ok(c) => c,
                        Err(e) => {
                            return Err(e);
                        },
                    };
                    cur.args.push(c);
                    proof {
                        lemma_env_lookup_range(env@, 0, tv[i as int].source);
                        assert(cur@ =~= cur@.drop_last().push(c));
                        assert forall|k: int|
                            0 <= k < stack@.len() implies ids_ok(
                            (#[trigger] stack@[k])@,
                            env@.cells.len(),
                        ) by {
                            assert(gstack[k] == stack@[k]@);
                            crate::model::lemma_ids_ok_grow(gstack[k], pre_len, env@.cells.len());
                        }
                        assert(ids_ok(cur@, env@.cells.len())) by {
                            crate::model::lemma_ids_ok_grow(
                                cur@.drop_last(),
                                pre_len,
                                env@.cells.len(),
                            );
                        }
                    }
                },
                _ => {
                    return Err(JtsErrType::ErrSpecialOp);
                },
            }
            i = i + 1;
        }
        if opens != closes {
            return Err(JtsErrType::UnbalancedParentheses);
        }
        Ok(cur)
    }
}

/// Every cell index held by every stacked node is in range.
pub open spec fn stack_ids_ok(stack: Seq<Node>, n: nat) -> bool {
    forall|k: int| 0 <= k < stack.len() ==> ids_ok((#[trigger] stack[k])@, n)
}

/// Rewriting then interning: what `parse_tokens` does to a parser and an
/// environment.
pub open spec fn s_parse(p: VParser, e: VEnv, mod_name: Seq<char>) -> (
    VEnv,
    Result<Seq<usize>, JtsErrType>,
) {
    match s_extract_opers(p.tokens, p.exprs, u64::MAX as nat) {
        Err(er) => (e, Err(er)),
        Ok(t2) => s_parse_tokens(e, t2, 0, Seq::empty(), Seq::empty(), 0, mod_name),
    }
}

/// Reading then interning then running: what feeding raw source to the
/// environment does, the forms evaluated in the prelude module.
pub open spec fn s_add_src(e: VEnv, src: Seq<char>, f: nat) -> (VEnv, Result<VObj, JtsErrType>) {
    match s_from_string(src) {
        Err(er) => (e, Err(er)),
        Ok(p) => {
            let (e2, r) = s_parse(p, e, crate::model::prelude_name());
            match r {
                Err(er) => (e2, Err(er)),
                Ok(ids) => crate::semantics::s_run(e2, ids, f),
            }
        },
    }
}

impl Env {
    /// Reads, interns and evaluates source text in the prelude module,
    /// returning the last form's value.
    pub fn add_src(&mut self, src: &String, fuel: u64) -> (r: JtsErr<Obj>)
        requires
            old(self).inv(),
        ensures
            final(self).inv(),
            ({
                let (e2, rr) = s_add_src(old(self)@, src@, fuel as nat);
                final(self)@ == e2 && crate::exec::res_view(r) == rr
            }),
    {
        let mut parser = match Parser::from_string(src) {
            Ok(p) => p,
            Err(e) => {
                return Err(e);
            },
        };
        let mod_id = String::from_str("prelude");
        proof {
            reveal_strlit("prelude");
            assert(mod_id@ =~= crate::model::prelude_name());
        }
        let body = match parser.parse_tokens(self, &mod_id) {
            Ok(b) => b,
            Err(e) => {
                return Err(e);
            },
        };
        self.run(&body, fuel)
    }
}

/// What loading module source does: the module is created with a prelude
/// import when missing, the source is read and interned into it, and the
/// forms read become its body.
pub open spec fn s_add_module_src(e: VEnv, mod_name: Seq<char>, src: Seq<char>) -> (
    VEnv,
    Result<(), JtsErrType>,
) {
    let first: (VEnv, Result<(), JtsErrType>) = if s_mod_find(e.modules, mod_name) is None {
        crate::env::s_add_module(e, mod_name, true)
    } else {
        (e, Ok(()))
    };
    match first.1 {
        Err(er) => (first.0, Err(er)),
        Ok(_) => match s_from_string(src) {
            Err(er) => (first.0, Err(er)),
            Ok(p) => {
                let (e2, r) = s_parse(p, first.0, mod_name);
                match r {
                    Err(er) => (e2, Err(er)),
                    Ok(ids) => match s_mod_find(e2.modules, mod_name) {
                        None => (e2, Err(JtsErrType::MissingModule)),
                        Some(m) => {
                            let md = e2.modules[m as int];
                            (
                                VEnv {
                                    modules: e2.modules.update(
                                        m as int,
                                        crate::model::VMod { body: ids, ..md },
                                    ),
                                    ..e2
                                },
                                Ok(()),
                            )
                        },
                    },
                }
            },
        },
    }
}

impl Env {
    /// Loads module source: creates the module with a prelude import when
    /// missing, reads and interns the source into it, and installs the forms
    /// read as its body.
    pub fn add_module_src(&mut self, mod_id: &String, src: &String) -> (r: JtsErr)
        requires
            old(self).inv(),
        ensures
            final(self).inv(),
            ({
                let (e2, rr) = s_add_module_src(old(self)@, mod_id@, src@);
                final(self)@ == e2 && r == rr
            }),
    {
        match self.module(mod_id) {
            Ok(_) => {},
            Err(_) => {
                match self.add_module(mod_id, true) {
                    Ok(_) => {},
                    Err(e) => {
                        return Err(e);
                    },
                }
            },
        }
        let mut parser = match Parser::from_string(src) {
            Ok(p) => p,
            Err(e) => {
                return Err(e);
            },
        };
        let body = match parser.parse_tokens(self, mod_id) {
            Ok(b) => b,
            Err(e) => {
                return Err(e);
            },
        };
        let m = match self.module(mod_id) {
            Ok(m) => m,
            Err(e) => {
                return Err(e);
            },
        };
        proof {
            assert(self@.modules[m as int] == self.modules@[m as int]@);
        }
        self.modules[m].add_body(body);
        proof {
            let md = old(self)@;
            let e2 = s_parse(
                crate::parser::s_from_string(src@)->Ok_0,
                s_add_module_src_first(old(self)@, mod_id@),
                mod_id@,
            ).0;
            let mdv = crate::model::VMod { body: self.modules@[m as int]@.body, ..e2.modules[m as int] };
            assert(self.modules@[m as int]@ == mdv);
            assert(self@.modules =~= e2.modules.update(m as int, mdv));
            assert(self@ == (VEnv { modules: e2.modules.update(m as int, mdv), ..e2 }));
            let e = self@;
            assert forall|i: int| 0 <= i < e.modules.len() implies crate::model::vmod_wf(
                #[trigger] e.modules[i],
                e.cells.len(),
                e.modules.len(),
            ) by {
                assert(crate::model::vmod_wf(e2.modules[i], e.cells.len(), e.modules.len()));
            }
        }
        Ok(())
    }
}

/// The state after the module-creation step of loading module source.
pub open spec fn s_add_module_src_first(e: VEnv, mod_name: Seq<char>) -> VEnv {
    if s_mod_find(e.modules, mod_name) is None {
        crate::env::s_add_module(e, mod_name, true).0
    } else {
        e
    }
}

} // verus!

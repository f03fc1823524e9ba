//! Tokens and the operator-tagged expression tree the reader builds from
//! them: structural open and close markers, bare symbols, and the four
//! prefix operators — quote, escape, apply and rest.

use vstd::prelude::*;

verus! {

/// The identity of a token: reader-issued tokens carry a sequence number,
/// tokens materialized by the rewrite pass carry none and match nothing.
pub struct Id {
    pub id: Option<usize>,
}

impl Id {
    /// What token identity means: two identities match only when both carry
    /// the same sequence number.
    pub open spec fn same(self, other: Id) -> bool {
        self.id is Some && other.id is Some && self.id == other.id
    }

    /// An identity carrying sequence number `n`.
    pub fn new(n: usize) -> (r: Self)
        ensures
            r.id == Some(n),
    {
        Id { id: Some(n) }
    }

    /// An identity that matches nothing, not even itself.
    pub fn new_uninit() -> (r: Self)
        ensures
            r.id is None,
    {
        Id { id: None }
    }
}

impl Clone for Id {
    fn clone(&self) -> (r: Self)
        ensures
            r == *self,
    {
        Id { id: match self.id {
            Some(n) => Some(n),
            None => None,
        } }
    }
}

impl PartialEq for Id {
    fn eq(&self, other: &Self) -> (r: bool) {
        match (self.id, other.id) {
            (Some(a), Some(b)) => a == b,
            _ => false,
        }
    }
}

impl vstd::std_specs::cmp::PartialEqSpecImpl for Id {
    open spec fn obeys_eq_spec() -> bool {
        true
    }

    open spec fn eq_spec(&self, other: &Self) -> bool {
        self.same(*other)
    }
}

/// What a token is: a symbol, a structural marker, or a prefix operator.
#[derive(Clone, Copy, PartialEq, Eq, Structural, Debug)]
pub enum TokType {
    Symbol,
    Beg,
    End,
    Quote,
    Escape,
    Apply,
    Rest,
}

impl TokType {
    /// The display name of this token kind; operator kinds name the symbol
    /// their rewritten call forms use.
    pub fn to_string(&self) -> (r: String)
        ensures
            r@ == self.spec_name(),
    {
        proof {
            reveal_strlit("symbol");
            reveal_strlit("beg");
            reveal_strlit("end");
            reveal_strlit("quote");
            reveal_strlit("escape");
            reveal_strlit("apply");
            reveal_strlit("rest");
        }
        match self {
            TokType::Symbol => String::from_str("symbol"),
            TokType::Beg => String::from_str("beg"),
            TokType::End => String::from_str("end"),
            TokType::Quote => String::from_str("quote"),
            TokType::Escape => String::from_str("escape"),
            TokType::Apply => String::from_str("apply"),
            TokType::Rest => String::from_str("rest"),
        }
    }

    /// The display name of each token kind.
    pub open spec fn spec_name(self) -> Seq<char> {
        match self {
            TokType::Symbol => "symbol"@,
            TokType::Beg => "beg"@,
            TokType::End => "end"@,
            TokType::Quote => "quote"@,
            TokType::Escape => "escape"@,
            TokType::Apply => "apply"@,
            TokType::Rest => "rest"@,
        }
    }

    /// Whether `ch` separates tokens without being one.
    pub open spec fn spec_is_escaper(ch: char) -> bool {
        ch == ' ' || ch == ';' || ch == '\n' || ch == '\t' || ch == '\u{0}' || ch == '"'
    }

    /// Whether `ch` separates tokens without being one.
    pub fn is_escaper(ch: char) -> (r: bool)
        ensures
            r == TokType::spec_is_escaper(ch),
    {
        ch == ' ' || ch == ';' || ch == '\n' || ch == '\t' || ch == '\u{0}' || ch == '"'
    }

    /// Whether `ch` is a structural marker or prefix operator character.
    pub open spec fn spec_is_operater(ch: char) -> bool {
        ch == '(' || ch == ')' || ch == '\'' || ch == ',' || ch == '@' || ch == '&'
    }

    /// Whether `ch` is a structural marker or prefix operator character.
    pub fn is_operater(ch: char) -> (r: bool)
        ensures
            r == TokType::spec_is_operater(ch),
    {
        ch == '(' || ch == ')' || ch == '\'' || ch == ',' || ch == '@' || ch == '&'
    }

    /// Whether `ch` cannot continue a symbol.
    pub open spec fn spec_is_non_symbol(ch: char) -> bool {
        TokType::spec_is_escaper(ch) || TokType::spec_is_operater(ch)
    }

    /// Whether `ch` cannot continue a symbol.
    pub fn is_non_symbol(ch: char) -> (r: bool)
        ensures
            r == TokType::spec_is_non_symbol(ch),
    {
        TokType::is_escaper(ch) || TokType::is_operater(ch)
    }
}

/// The prefix operators seen before a token, as a small bit set.
#[derive(Clone, Copy, PartialEq, Eq, Structural, Debug)]
pub struct TokFlag {
    pub bits: u8,
}

/// The bit recording a pending escape operator.
pub const FLAG_ESCAPE: u8 = 1;

/// The bit recording a pending quote operator.
pub const FLAG_QUOTE: u8 = 2;

/// The bit recording a pending apply operator.
pub const FLAG_APPLY: u8 = 4;

/// The bit recording a pending rest operator.
pub const FLAG_REST: u8 = 8;

/// The bit a token kind sets, when it is a prefix operator.
pub open spec fn flag_bit(t: TokType) -> u8 {
    match t {
        TokType::Escape => FLAG_ESCAPE,
        TokType::Quote => FLAG_QUOTE,
        TokType::Apply => FLAG_APPLY,
        TokType::Rest => FLAG_REST,
        _ => 0,
    }
}

impl TokFlag {
    /// The empty set of pending operators.
    pub fn empty() -> (r: Self)
        ensures
            r.bits == 0,
    {
        TokFlag { bits: 0 }
    }

    /// Whether the bit for `t` is set.
    pub open spec fn spec_has(self, t: TokType) -> bool {
        self.bits & flag_bit(t) != 0
    }

    /// Records that operator `t` was seen.
    pub fn add(&mut self, tok_type: TokType)
        ensures
            final(self).bits == old(self).bits | flag_bit(tok_type),
    {
        match tok_type {
            TokType::Escape => self.bits = self.bits | FLAG_ESCAPE,
            TokType::Quote => self.bits = self.bits | FLAG_QUOTE,
            TokType::Apply => self.bits = self.bits | FLAG_APPLY,
            TokType::Rest => self.bits = self.bits | FLAG_REST,
            _ => {
                let b = self.bits;
                assert(flag_bit(tok_type) == 0);
                assert(b | 0u8 == b) by (bit_vector);
            },
        }
    }

    /// Whether operator `t` was seen.
    pub fn has(&self, tok_type: TokType) -> (r: bool)
        ensures
            r == self.spec_has(tok_type),
    {
        match tok_type {
            TokType::Escape => self.bits & FLAG_ESCAPE != 0,
            TokType::Quote => self.bits & FLAG_QUOTE != 0,
            TokType::Apply => self.bits & FLAG_APPLY != 0,
            TokType::Rest => self.bits & FLAG_REST != 0,
            _ => {
                let b = self.bits;
                assert(flag_bit(tok_type) == 0);
                assert(b & 0u8 == 0u8) by (bit_vector);
                false
            },
        }
    }
}

/// The model of a token.
pub ghost struct VTok {
    pub source: Seq<char>,
    pub tok_type: TokType,
    pub id: Option<usize>,
}

/// One token of source text.
pub struct Tok {
    pub source: String,
    pub tok_type: TokType,
    pub id: Id,
}

impl View for Tok {
    type V = VTok;

    open spec fn view(&self) -> VTok {
        VTok { source: self.source@, tok_type: self.tok_type, id: self.id.id }
    }
}

impl Clone for Tok {
    fn clone(&self) -> (r: Self)
        ensures
            r@ == self@,
    {
        Tok { source: self.source.clone(), tok_type: self.tok_type, id: self.id.clone() }
    }
}

impl Tok {
    /// A symbol-bearing token under the given identity.
    pub fn new(source: &String, tok_type: TokType, id: Id) -> (r: Self)
        ensures
            r@ == (VTok { source: source@, tok_type: tok_type, id: id.id }),
    {
        Tok { source: source.clone(), tok_type, id }
    }

    /// A bare marker or operator token carrying no text and no identity.
    pub fn new_op(tok_type: TokType) -> (r: Self)
        ensures
            r@ == (VTok { source: Seq::<char>::empty(), tok_type: tok_type, id: None }),
    {
        Tok { source: String::new(), tok_type, id: Id::new_uninit() }
    }

    /// This token's identity.
    pub fn id(&self) -> (r: &Id)
        ensures
            r.id == self@.id,
    {
        &self.id
    }
}

/// The model of an expression-tree node.
pub ghost struct VExpr {
    pub tok_beg: Option<usize>,
    pub tok_end: Option<usize>,
    pub flag: u8,
    pub exprs: Seq<VExpr>,
}

/// One node of the operator-tagged expression tree: the identities of its
/// opening and closing tokens, the prefix operators seen before it, and its
/// children in order.
pub struct Expr {
    pub tok_beg: Id,
    pub tok_end: Id,
    pub flag: TokFlag,
    pub exprs: Vec<Expr>,
}

impl Expr {
    /// The model of this node.
    pub open spec fn vw(self) -> VExpr
        decreases self,
    {
        VExpr {
            tok_beg: self.tok_beg.id,
            tok_end: self.tok_end.id,
            flag: self.flag.bits,
            exprs: Seq::new(
                self.exprs@.len(),
                |i: int|
                    if 0 <= i < self.exprs@.len() {
                        self.exprs@[i].vw()
                    } else {
                        VExpr {
                            tok_beg: None,
                            tok_end: None,
                            flag: 0,
                            exprs: Seq::empty(),
                        }
                    },
            ),
        }
    }
}

impl View for Expr {
    type V = VExpr;

    open spec fn view(&self) -> VExpr {
        self.vw()
    }
}

/// The models of a run of nodes, in order.
pub open spec fn vexprs(es: Seq<Expr>) -> Seq<VExpr> {
    Seq::new(
        es.len(),
        |i: int|
            if 0 <= i < es.len() {
                es[i].vw()
            } else {
                VExpr { tok_beg: None, tok_end: None, flag: 0, exprs: Seq::empty() }
            },
    )
}

/// Whether any node of the tree rooted at `e` carries the bit of `t`.
pub open spec fn s_any_flag(e: VExpr, t: TokType) -> bool
    decreases e,
{
    if e.flag & flag_bit(t) != 0 {
        true
    } else {
        exists|i: int| 0 <= i < e.exprs.len() && s_any_flag(#[trigger] e.exprs[i], t)
    }
}

impl Clone for Expr {
    fn clone(&self) -> (r: Self)
        ensures
            r@ == self@,
        decreases self,
    {
        let mut exprs: Vec<Expr> = Vec::new();
        let mut i: usize = 0;
        while i < self.exprs.len()
            invariant
                i <= self.exprs.len(),
                exprs@.len() == i,
                forall|k: int| 0 <= k < i ==> (#[trigger] exprs@[k]).vw() == self.exprs@[k].vw(),
            decreases self.exprs.len() - i,
        {
            let c = self.exprs[i].clone();
            exprs.push(c);
            i = i + 1;
        }
        let r = Expr {
            tok_beg: self.tok_beg.clone(),
            tok_end: self.tok_end.clone(),
            flag: TokFlag { bits: self.flag.bits },
            exprs,
        };
        proof {
            assert(r.vw().exprs =~= self.vw().exprs);
        }
        r
    }
}

impl Expr {
    /// A node opened at `tok_beg` with the given pending operators and no
    /// children or closing token yet.
    pub fn new(tok_beg: &Id, flag: TokFlag) -> (r: Self)
        ensures
            r@ == (VExpr {
                tok_beg: tok_beg.id,
                tok_end: None,
                flag: flag.bits,
                exprs: Seq::<VExpr>::empty(),
            }),
    {
        let r = Expr {
            tok_beg: tok_beg.clone(),
            tok_end: Id::new_uninit(),
            flag,
            exprs: Vec::new(),
        };
        proof {
            assert(r.vw().exprs =~= Seq::<VExpr>::empty());
        }
        r
    }

    /// A node assembled from all four parts.
    pub fn from_parts(tok_beg: &Id, tok_end: &Id, flag: TokFlag, exprs: Vec<Expr>) -> (r: Self)
        ensures
            r@ == (VExpr {
                tok_beg: tok_beg.id,
                tok_end: tok_end.id,
                flag: flag.bits,
                exprs: vexprs(exprs@),
            }),
    {
        let ghost pre = exprs@;
        let r = Expr { tok_beg: tok_beg.clone(), tok_end: tok_end.clone(), flag, exprs };
        proof {
            assert(r.vw().exprs =~= vexprs(pre));
        }
        r
    }

    /// Whether any node of this tree carries the bit of `t`.
    pub fn any(&self, t: TokType) -> (r: bool)
        ensures
            r == s_any_flag(self@, t),
        decreases self,
    {
        if self.flag.has(t) {
            return true;
        }
        let mut i: usize = 0;
        while i < self.exprs.len()
            invariant
                i <= self.exprs.len(),
                self@.flag & flag_bit(t) == 0,
                forall|k: int|
                    0 <= k < i ==> !s_any_flag(#[trigger] self@.exprs[k], t),
            decreases self.exprs.len() - i,
        {
            proof {
                assert(self@.exprs[i as int] == self.exprs@[i as int]@);
            }
            if self.exprs[i].any(t) {
                return true;
            }
            i = i + 1;
        }
        false
    }
}

} // verus!

//! The rule tree that the external source-text parser hands the compiler.
//!
//! The parser itself is an external collaborator: whatever produces a
//! [`ParseNode`] tree (the bundled front end converts a parser generator's
//! output) must follow the shape below, which [`wf_file`] captures and
//! [`check_file`] tests at run time:
//!
//! - `File`: one child per source line (`Line`, `Rem` or `Newline`),
//!   optionally ending with `Eoi`.
//! - `Line`: children among `Number` (the leading line number's text),
//!   `Stmt` and `Newline`.
//! - `Stmt`: the first child names the statement kind (`End`, `Return`,
//!   `Goto`, `Gosub`, `If`, `Input`, `Let`, `Print`); operands follow:
//!   `Goto n` has the number node second; `If` has the condition, the then
//!   statement and optionally the else statement; `Input` the identifier;
//!   `Let` the identifier then the arithmetic expression; `Print` the
//!   expression.
//! - `Cond`: left operand, `Relop` (whose first child is one of `Eq`, `Ne`,
//!   `Ge`, `Gt`, `Le`, `Lt`), right operand.
//! - `Expr`: one child, a `StringLit` (text still carrying its quotes) or
//!   an `Arexpr`.
//! - `Arexpr`: operands at even positions (`Number`, `Ident`, or a
//!   parenthesized `Arexpr`), operators (`Add`, `Sub`, `Mul`, `Div`) at odd
//!   positions.
//!
//! Token text is stored trimmed of surrounding whitespace; `line` is the
//! 1-based source line of the token, used by error reports.

use vstd::prelude::*;

verus! {

/// The grammar rule a node was produced by.
#[derive(Clone, Copy, PartialEq, Eq, Structural, Debug)]
pub enum ParseRule {
    File,
    Line,
    Number,
    Stmt,
    End,
    Return,
    Goto,
    Gosub,
    If,
    Input,
    Let,
    Print,
    Cond,
    Relop,
    Eq,
    Ne,
    Ge,
    Gt,
    Le,
    Lt,
    Expr,
    StringLit,
    Arexpr,
    Add,
    Sub,
    Mul,
    Div,
    Ident,
    Rem,
    Newline,
    Eoi,
}

/// One node of the rule tree: its rule, its token text (trimmed), the
/// 1-based source line it starts on, and its child nodes.
#[derive(Debug)]
pub struct ParseNode {
    pub rule: ParseRule,
    pub text: String,
    pub line: usize,
    pub children: Vec<ParseNode>,
}

/// Whether the node may stand as an operand of a condition: a number or an
/// identifier.
pub open spec fn wf_cond_operand(n: ParseNode) -> bool {
    n.rule is Number || n.rule is Ident
}

/// Whether the node is a well-formed relational-operator node.
pub open spec fn wf_relop(n: ParseNode) -> bool {
    &&& n.rule is Relop
    &&& n.children@.len() >= 1
    &&& (n.children@[0].rule is Eq || n.children@[0].rule is Ne || n.children@[0].rule is Ge
        || n.children@[0].rule is Gt || n.children@[0].rule is Le || n.children@[0].rule is Lt)
}

/// Whether the node is a well-formed condition node.
pub open spec fn wf_cond(n: ParseNode) -> bool {
    &&& n.rule is Cond
    &&& n.children@.len() >= 3
    &&& wf_cond_operand(n.children@[0])
    &&& wf_relop(n.children@[1])
    &&& wf_cond_operand(n.children@[2])
}

/// Whether the items of an arithmetic-expression node from position `i` on
/// are well formed: operands at even positions, operators at odd ones.
pub open spec fn wf_arexpr_items(n: ParseNode, i: int) -> bool
    decreases n, n.children@.len() - i,
{
    if i < 0 || i >= n.children@.len() {
        true
    } else if i % 2 == 0 {
        let ok = match n.children@[i].rule {
            ParseRule::Number => true,
            ParseRule::Ident => true,
            ParseRule::Arexpr => n.children@[i].children@.len() % 2 == 1 && wf_arexpr_items(
                n.children@[i],
                0,
            ),
            _ => false,
        };
        ok && wf_arexpr_items(n, i + 1)
    } else {
        let c = n.children@[i];
        (c.rule is Add || c.rule is Sub || c.rule is Mul || c.rule is Div) && wf_arexpr_items(
            n,
            i + 1,
        )
    }
}

/// Whether the node is a well-formed arithmetic-expression node.
pub open spec fn wf_arexpr(n: ParseNode) -> bool {
    &&& n.rule is Arexpr
    &&& n.children@.len() % 2 == 1
    &&& wf_arexpr_items(n, 0)
}

/// Whether the node is a well-formed expression node.
pub open spec fn wf_expr(n: ParseNode) -> bool {
    &&& n.rule is Expr
    &&& n.children@.len() >= 1
    &&& match n.children@[0].rule {
        ParseRule::StringLit => {
            let t = n.children@[0].text@;
            t.len() >= 2 && t[0] == '"' && t[t.len() - 1] == '"'
        },
        ParseRule::Arexpr => wf_arexpr(n.children@[0]),
        _ => false,
    }
}

/// Whether the node is a well-formed statement node.
pub open spec fn wf_stmt(n: ParseNode) -> bool
    decreases n,
{
    &&& n.rule is Stmt
    &&& n.children@.len() >= 1
    &&& match n.children@[0].rule {
        ParseRule::End => true,
        ParseRule::Return => true,
        ParseRule::Goto => n.children@.len() >= 2,
        ParseRule::Gosub => n.children@.len() >= 2,
        ParseRule::If => {
            &&& n.children@.len() >= 3
            &&& wf_cond(n.children@[1])
            &&& wf_stmt(n.children@[2])
            &&& (n.children@.len() >= 4 ==> wf_stmt(n.children@[3]))
        },
        ParseRule::Input => n.children@.len() >= 2,
        ParseRule::Let => n.children@.len() >= 3 && wf_arexpr(n.children@[2]),
        ParseRule::Print => n.children@.len() >= 2 && wf_expr(n.children@[1]),
        _ => false,
    }
}

/// Whether the node may stand where a line is expected: a comment, a blank
/// line, or a line whose tokens are numbers, statements and line breaks.
pub open spec fn wf_line(n: ParseNode) -> bool {
    match n.rule {
        ParseRule::Rem => true,
        ParseRule::Newline => true,
        ParseRule::Line => forall|i: int|
            0 <= i < n.children@.len() ==> ((#[trigger] n.children@[i]).rule is Number
                || n.children@[i].rule is Newline || wf_stmt(n.children@[i])),
        _ => false,
    }
}

/// Whether the node is a well-formed file node, the root the compiler
/// accepts.
pub open spec fn wf_file(n: ParseNode) -> bool {
    &&& n.rule is File
    &&& forall|i: int|
        0 <= i < n.children@.len() ==> ((#[trigger] n.children@[i]).rule is Eoi || wf_line(
            n.children@[i],
        ))
}

impl ParseNode {
    /// Tests whether this node is a well-formed file node; the bundled
    /// front end calls this before handing the tree to the compiler.
    pub fn check_file(&self) -> (r: bool)
        ensures
            r == wf_file(*self),
    {
        if !matches!(self.rule, ParseRule::File) {
            return false;
        }
        let mut i: usize = 0;
        while i < self.children.len()
            invariant
                0 <= i <= self.children@.len(),
                forall|j: int|
                    0 <= j < i ==> ((#[trigger] self.children@[j]).rule is Eoi || wf_line(
                        self.children@[j],
                    )),
            decreases self.children@.len() - i,
        {
            let c = &self.children[i];
            if !matches!(c.rule, ParseRule::Eoi) && !c.check_line() {
                return false;
            }
            i += 1;
        }
        true
    }

    /// Tests [`wf_line`].
    pub fn check_line(&self) -> (r: bool)
        ensures
            r == wf_line(*self),
    {
        match self.rule {
            ParseRule::Rem => true,
            ParseRule::Newline => true,
            ParseRule::Line => {
                let mut i: usize = 0;
                while i < self.children.len()
                    invariant
                        self.rule is Line,
                        0 <= i <= self.children@.len(),
                        forall|j: int|
                            0 <= j < i ==> ((#[trigger] self.children@[j]).rule is Number
                                || self.children@[j].rule is Newline || wf_stmt(
                                self.children@[j],
                            )),
                    decreases self.children@.len() - i,
                {
                    let c = &self.children[i];
                    let ok = match c.rule {
                        ParseRule::Number => true,
                        ParseRule::Newline => true,
                        _ => c.check_stmt(),
                    };
                    if !ok {
                        proof {
                            assert(wf_line(*self) ==> (self.children@[i as int].rule is Number
                                || self.children@[i as int].rule is Newline || wf_stmt(
                                self.children@[i as int],
                            )));
                        }
                        return false;
                    }
                    i += 1;
                }
                true
            },
            _ => false,
        }
    }

    /// Tests [`wf_stmt`].
    pub fn check_stmt(&self) -> (r: bool)
        ensures
            r == wf_stmt(*self),
        decreases *self,
    {
        if !matches!(self.rule, ParseRule::Stmt) || self.children.len() == 0 {
            return false;
        }
        let head = &self.children[0];
        match head.rule {
            ParseRule::End => true,
            ParseRule::Return => true,
            ParseRule::Goto => self.children.len() >= 2,
            ParseRule::Gosub => self.children.len() >= 2,
            ParseRule::If => {
                self.children.len() >= 3 && self.children[1].check_cond()
                    && self.children[2].check_stmt() && (self.children.len() < 4
                    || self.children[3].check_stmt())
            },
            ParseRule::Input => self.children.len() >= 2,
            ParseRule::Let => self.children.len() >= 3 && self.children[2].check_arexpr(),
            ParseRule::Print => self.children.len() >= 2 && self.children[1].check_expr(),
            _ => false,
        }
    }

    /// Tests [`wf_cond`].
    pub fn check_cond(&self) -> (r: bool)
        ensures
            r == wf_cond(*self),
    {
        matches!(self.rule, ParseRule::Cond) && self.children.len() >= 3 && matches!(
            self.children[0].rule,
            ParseRule::Number | ParseRule::Ident,
        ) && matches!(self.children[1].rule, ParseRule::Relop)
            && self.children[1].children.len() >= 1 && matches!(
            self.children[1].children[0].rule,
            ParseRule::Eq | ParseRule::Ne | ParseRule::Ge | ParseRule::Gt | ParseRule::Le
                | ParseRule::Lt,
        ) && matches!(self.children[2].rule, ParseRule::Number | ParseRule::Ident)
    }

    /// Tests [`wf_expr`].
    pub fn check_expr(&self) -> (r: bool)
        ensures
            r == wf_expr(*self),
    {
        if !matches!(self.rule, ParseRule::Expr) || self.children.len() == 0 {
            return false;
        }
        let c = &self.children[0];
        match c.rule {
            ParseRule::StringLit => {
                let len = c.text.as_str().unicode_len();
                len >= 2 && c.text.as_str().get_char(0) == '"' && c.text.as_str().get_char(len - 1)
                    == '"'
            },
            ParseRule::Arexpr => c.check_arexpr(),
            _ => false,
        }
    }

    /// Tests [`wf_arexpr`].
    pub fn check_arexpr(&self) -> (r: bool)
        ensures
            r == wf_arexpr(*self),
        decreases *self,
    {
        if !matches!(self.rule, ParseRule::Arexpr) || self.children.len() % 2 != 1 {
            return false;
        }
        let mut i: usize = 0;
        while i < self.children.len()
            invariant
                0 <= i <= self.children@.len(),
                wf_arexpr_items(*self, 0) == wf_arexpr_items(*self, i as int),
            decreases self.children@.len() - i,
        {
            let c = &self.children[i];
            let ok = if i % 2 == 0 {
                match c.rule {
                    ParseRule::Number => true,
                    ParseRule::Ident => true,
                    ParseRule::Arexpr => c.check_arexpr(),
                    _ => false,
                }
            } else {
                matches!(c.rule, ParseRule::Add | ParseRule::Sub | ParseRule::Mul | ParseRule::Div)
            };
            if !ok {
                return false;
            }
            i += 1;
        }
        true
    }
}

} // verus!

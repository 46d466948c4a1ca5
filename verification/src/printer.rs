use vstd::prelude::*;
use vstd::string::*;

use crate::error::LoxError;
use crate::expr::BinaryExpr;
use crate::expr::Expr;
use crate::expr::ExprVisitor;
use crate::expr::GroupingExpr;
use crate::expr::LiteralExpr;
use crate::expr::SpecExpr;
use crate::expr::UnaryExpr;
use crate::object::obj_display;

verus! {

/// The rendered parts, each preceded by one space: how a parenthesized form
/// lists its subexpressions.
pub open spec fn joined(parts: Seq<Seq<char>>) -> Seq<char>
    decreases parts.len(),
{
    if parts.len() == 0 {
        Seq::empty()
    } else {
        joined(parts.drop_last()) + seq![' '] + parts.last()
    }
}

/// A fully parenthesized prefix form: `(<head> <part> ... <part>)`.
pub open spec fn paren_text(head: Seq<char>, parts: Seq<Seq<char>>) -> Seq<char> {
    "("@ + head + joined(parts) + ")"@
}

/// The canonical rendering of an expression tree: `(<operator> <left>
/// <right>)` for a binary node, `(group <inner>)` for a grouping,
/// `(<operator> <operand>)` for a unary node, and the literal's display
/// form (or `nil` when absent) for a literal.
pub open spec fn render_text(e: SpecExpr) -> Seq<char>
    decreases e,
{
    match e {
        SpecExpr::Binary { left, op, right } => paren_text(
            op.lexeme,
            seq![render_text(*left), render_text(*right)],
        ),
        SpecExpr::Grouping { inner } => paren_text("group"@, seq![render_text(*inner)]),
        SpecExpr::Literal { value } => match value {
            Some(o) => obj_display(o),
            None => "nil"@,
        },
        SpecExpr::Unary { op, right } => paren_text(op.lexeme, seq![render_text(*right)]),
    }
}

/// The rendering of every composite node — binary, grouping, unary — is
/// fully parenthesized: it opens with `(` and closes with `)`.
pub proof fn lemma_render_parenthesized(e: SpecExpr)
    requires
        !(e matches SpecExpr::Literal { .. }),
    ensures
        render_text(e).len() >= 2,
        render_text(e).first() == '(',
        render_text(e).last() == ')',
{
    reveal_strlit("(");
    reveal_strlit(")");
    let r = render_text(e);
    match e {
        SpecExpr::Binary { left, op, right } => {
            assert(r.first() == '(');
            assert(r.last() == ')');
        },
        SpecExpr::Grouping { inner } => {
            assert(r.first() == '(');
            assert(r.last() == ')');
        },
        SpecExpr::Unary { op, right } => {
            assert(r.first() == '(');
            assert(r.last() == ')');
        },
        SpecExpr::Literal { .. } => {},
    }
}

/// Renders one expression tree.
fn render(e: &Expr) -> (s: String)
    ensures
        s@ == render_text(e@),
    decreases *e,
{
    match e {
        Expr::Binary(b) => {
            let ls = render(&b.left);
            let rs = render(&b.right);
            let s = String::from_str("(").concat(b.operator.lexeme.as_str()).concat(" ").concat(
                ls.as_str(),
            ).concat(" ").concat(rs.as_str()).concat(")");
            proof {
                reveal_strlit(" ");
                reveal_with_fuel(joined, 4);
                let lt = render_text(b.left@);
                let rt = render_text(b.right@);
                let parts = seq![lt, rt];
                assert(parts.drop_last() =~= seq![lt]);
                assert(seq![lt].drop_last() =~= Seq::<Seq<char>>::empty());
                assert(joined(parts) =~= seq![' '] + lt + seq![' '] + rt);
                assert(" "@ =~= seq![' ']);
                assert(s@ =~= render_text(e@));
            }
            s
        },
        Expr::Grouping(g) => {
            let inner = render(&g.expression);
            let s = String::from_str("(group ").concat(inner.as_str()).concat(")");
            proof {
                reveal_strlit("(");
                reveal_strlit("(group ");
                reveal_strlit("group");
                reveal_strlit(" ");
                reveal_with_fuel(joined, 3);
                let it = render_text(g.expression@);
                let parts = seq![it];
                assert(parts.drop_last() =~= Seq::<Seq<char>>::empty());
                assert(joined(parts) =~= seq![' '] + it);
                assert(s@ =~= render_text(e@));
            }
            s
        },
        Expr::Literal(l) => {
            match &l.value {
                Some(v) => v.display(),
                None => String::from_str("nil"),
            }
        },
        Expr::Unary(u) => {
            let rs = render(&u.right);
            let s = String::from_str("(").concat(u.operator.lexeme.as_str()).concat(" ").concat(
                rs.as_str(),
            ).concat(")");
            proof {
                reveal_strlit(" ");
                reveal_with_fuel(joined, 3);
                let rt = render_text(u.right@);
                let parts = seq![rt];
                assert(parts.drop_last() =~= Seq::<Seq<char>>::empty());
                assert(joined(parts) =~= seq![' '] + rt);
                assert(" "@ =~= seq![' ']);
                assert(s@ =~= render_text(e@));
            }
            s
        },
    }
}

/// The sample visitor: renders an expression tree in fully parenthesized
/// prefix notation.  It serves as the conformance check for the visitor
/// mechanism: its `visits` relation states that visiting always succeeds
/// with exactly the canonical rendering.
pub struct AstPrinter;

impl AstPrinter {
    /// Renders the whole tree through the visitor dispatch.
    pub fn print(&self, expr: &Expr) -> (r: Result<String, LoxError>)
        ensures
            r matches Ok(s) && s@ == render_text(expr@),
    {
        expr.eccept(self)
    }

    /// Builds `(<head> <rendering of each expression>...)`.
    pub fn parenthesize(&self, lexeme: &String, exprs: &[&Expr]) -> (r: Result<String, LoxError>)
        ensures
            r matches Ok(s) && s@ == paren_text(
                lexeme@,
                exprs@.map_values(|e: &Expr| render_text(e@)),
            ),
    {
        let ghost parts = exprs@.map_values(|e: &Expr| render_text(e@));
        let mut builder = String::from_str("(").concat(lexeme.as_str());
        let mut i: usize = 0;
        proof {
            assert(parts.take(0) =~= Seq::<Seq<char>>::empty());
            assert(builder@ =~= "("@ + lexeme@ + joined(parts.take(0)));
        }
        while i < exprs.len()
            invariant
                i <= exprs@.len(),
                parts == exprs@.map_values(|e: &Expr| render_text(e@)),
                builder@ == "("@ + lexeme@ + joined(parts.take(i as int)),
            decreases exprs@.len() - i,
        {
            let piece = render(exprs[i]);
            builder = builder.concat(" ").concat(piece.as_str());
            i += 1;
            proof {
                reveal_strlit(" ");
                assert(" "@ =~= seq![' ']);
                assert(parts.take(i as int).drop_last() =~= parts.take(i as int - 1));
                assert(parts.take(i as int).last() == parts[i as int - 1]);
                assert(builder@ =~= "("@ + lexeme@ + joined(parts.take(i as int)));
            }
        }
        proof {
            assert(parts.take(parts.len() as int) =~= parts);
        }
        Ok(builder.concat(")"))
    }
}

impl ExprVisitor<String> for AstPrinter {
    /// Visiting succeeds with exactly the canonical rendering of the node.
    open spec fn visits(&self, e: SpecExpr, r: Result<String, LoxError>) -> bool {
        r matches Ok(s) && s@ == render_text(e)
    }

    fn visitor_binary_expr(&self, expr: &BinaryExpr) -> (r: Result<String, LoxError>) {
        let parts: Vec<&Expr> = vec![&expr.left, &expr.right];
        let r = self.parenthesize(&expr.operator.lexeme, parts.as_slice());
        proof {
            assert(parts@.map_values(|e: &Expr| render_text(e@)) =~= seq![
                render_text(expr.left@),
                render_text(expr.right@),
            ]);
        }
        r
    }

    fn visitor_grouping_expr(&self, expr: &GroupingExpr) -> (r: Result<String, LoxError>) {
        let head = String::from_str("group");
        let parts: Vec<&Expr> = vec![&expr.expression];
        let r = self.parenthesize(&head, parts.as_slice());
        proof {
            assert(parts@.map_values(|e: &Expr| render_text(e@)) =~= seq![
                render_text(expr.expression@),
            ]);
        }
        r
    }

    fn visitor_literal_expr(&self, expr: &LiteralExpr) -> (r: Result<String, LoxError>) {
        match &expr.value {
            Some(v) => Ok(v.display()),
            None => Ok(String::from_str("nil")),
        }
    }

    fn visitor_unary_expr(&self, expr: &UnaryExpr) -> (r: Result<String, LoxError>) {
        let parts: Vec<&Expr> = vec![&expr.right];
        let r = self.parenthesize(&expr.operator.lexeme, parts.as_slice());
        proof {
            assert(parts@.map_values(|e: &Expr| render_text(e@)) =~= seq![
                render_text(expr.right@),
            ]);
        }
        r
    }
}

} // verus!

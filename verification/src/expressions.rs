//! Expression nodes of the syntax tree.

use vstd::prelude::*;
use vstd::string::*;
use crate::tokens::Literal;
use crate::tokens::Token;

verus! {

/// An expression.
#[derive(Debug)]
pub enum Expr {
    /// A literal value.
    Literal(Literal),
    /// `left and right`, `left or right`.
    Logical(Box<Expr>, Token, Box<Expr>),
    /// `-operand`, `!operand`.
    Unary(Token, Box<Expr>),
    /// A variable read.
    Variable(Token),
    /// An arithmetic, comparison or equality operation.
    Binary(Box<Expr>, Token, Box<Expr>),
    /// `name = value`.
    Assign(Token, Box<Expr>),
    /// A call: the callee, the closing parenthesis, the arguments.
    Call(Box<Expr>, Token, Vec<Expr>),
    /// A parenthesised expression.
    Grouping(Box<Expr>),
}

/// The mathematical value of an [`Expr`]: the same tree, with sequences
/// for its lists.
pub ghost enum ExprView {
    Literal(Literal),
    Logical(Box<ExprView>, Token, Box<ExprView>),
    Unary(Token, Box<ExprView>),
    Variable(Token),
    Binary(Box<ExprView>, Token, Box<ExprView>),
    Assign(Token, Box<ExprView>),
    Call(Box<ExprView>, Token, Seq<ExprView>),
    Grouping(Box<ExprView>),
}

/// The values of a list of expressions.
pub open spec fn expr_views(list: Seq<Expr>) -> Seq<ExprView>
    decreases list,
{
    Seq::new(list.len(), |i: int| if 0 <= i < list.len() { list[i].model() } else { arbitrary() })
}

impl Expr {
    /// The value of this expression.
    pub open spec fn model(&self) -> ExprView
        decreases self,
    {
        match self {
            Expr::Literal(value) => ExprView::Literal(*value),
            Expr::Logical(left, operator, right) => ExprView::Logical(
                Box::new(left.model()),
                *operator,
                Box::new(right.model()),
            ),
            Expr::Unary(operator, operand) => ExprView::Unary(*operator, Box::new(operand.model())),
            Expr::Variable(name) => ExprView::Variable(*name),
            Expr::Binary(left, operator, right) => ExprView::Binary(
                Box::new(left.model()),
                *operator,
                Box::new(right.model()),
            ),
            Expr::Assign(name, value) => ExprView::Assign(*name, Box::new(value.model())),
            Expr::Call(callee, paren, arguments) => ExprView::Call(
                Box::new(callee.model()),
                *paren,
                expr_views(arguments@),
            ),
            Expr::Grouping(inner) => ExprView::Grouping(Box::new(inner.model())),
        }
    }
}

impl View for Expr {
    type V = ExprView;

    open spec fn view(&self) -> ExprView {
        self.model()
    }
}


/// The text of a literal: a string as it is, a number as its numeral.
pub open spec fn literal_text(value: Literal) -> Seq<char> {
    match value {
        Literal::Nil => "nil"@,
        Literal::Bool(b) => if b {
            "true"@
        } else {
            "false"@
        },
        Literal::String(text) => text@,
        Literal::Number(numeral) => numeral@,
    }
}

/// The texts of the first `count` expressions of a list, a space before
/// each.
pub open spec fn list_text(list: Seq<Expr>, count: int) -> Seq<char>
    decreases list, count,
{
    if 0 < count <= list.len() {
        list_text(list, count - 1) + " "@ + list[count - 1].text()
    } else {
        Seq::empty()
    }
}

impl Expr {
    /// The expression in prefix notation: an operation in parentheses,
    /// the operator first.
    pub open spec fn text(&self) -> Seq<char>
        decreases self, 0int,
    {
        match self {
            Expr::Literal(value) => literal_text(*value),
            Expr::Logical(left, operator, right) => "("@ + operator.name@ + " "@ + left.text() + " "@
                + right.text() + ")"@,
            Expr::Unary(operator, operand) => "("@ + operator.name@ + " "@ + operand.text() + ")"@,
            Expr::Variable(name) => name.name@,
            Expr::Binary(left, operator, right) => "("@ + operator.name@ + " "@ + left.text() + " "@
                + right.text() + ")"@,
            Expr::Assign(name, value) => "(= "@ + name.name@ + " "@ + value.text() + ")"@,
            Expr::Call(callee, _, arguments) => "(call "@ + callee.text() + list_text(
                arguments@,
                arguments@.len() as int,
            ) + ")"@,
            Expr::Grouping(inner) => "(group "@ + inner.text() + ")"@,
        }
    }

    /// Appends the text of the expression to `out`.
    pub fn write(&self, out: &mut String)
        ensures
            final(out)@ == old(out)@ + self.text(),
        decreases self,
    {
        match self {
            Expr::Literal(value) => {
                match value {
                    Literal::Nil => out.append("nil"),
                    Literal::Bool(b) => if *b {
                        out.append("true")
                    } else {
                        out.append("false")
                    },
                    Literal::String(text) => out.append(text.as_str()),
                    Literal::Number(numeral) => out.append(numeral.as_str()),
                }
            },
            Expr::Logical(left, operator, right) => {
                out.append("(");
                out.append(operator.name.as_str());
                out.append(" ");
                left.write(out);
                out.append(" ");
                right.write(out);
                out.append(")");
            },
            Expr::Unary(operator, operand) => {
                out.append("(");
                out.append(operator.name.as_str());
                out.append(" ");
                operand.write(out);
                out.append(")");
            },
            Expr::Variable(name) => {
                out.append(name.name.as_str());
            },
            Expr::Binary(left, operator, right) => {
                out.append("(");
                out.append(operator.name.as_str());
                out.append(" ");
                left.write(out);
                out.append(" ");
                right.write(out);
                out.append(")");
            },
            Expr::Assign(name, value) => {
                out.append("(= ");
                out.append(name.name.as_str());
                out.append(" ");
                value.write(out);
                out.append(")");
            },
            Expr::Call(callee, _, arguments) => {
                out.append("(call ");
                callee.write(out);
                let ghost before = out@;
                let mut i: usize = 0;
                while i < arguments.len()
                    invariant
                        i <= arguments@.len(),
                        out@ == before + list_text(arguments@, i as int),
                        self is Call,
                        self->Call_2 == *arguments,
                    decreases arguments@.len() - i,
                {
                    out.append(" ");
                    arguments[i].write(out);
                    i = i + 1;
                    assert(out@ =~= before + list_text(arguments@, i as int));
                }
                out.append(")");
            },
            Expr::Grouping(inner) => {
                out.append("(group ");
                inner.write(out);
                out.append(")");
            },
        }
        assert(out@ =~= old(out)@ + self.text());
    }

    /// The text of the expression.
    pub fn to_string(&self) -> (text: String)
        ensures
            text@ == self.text(),
    {
        let mut text = String::new();
        self.write(&mut text);
        assert(text@ =~= self.text());
        text
    }
}

} // verus!

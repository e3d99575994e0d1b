//! Statement nodes of the syntax tree.

use vstd::prelude::*;
use vstd::string::*;
use crate::expressions::Expr;
use crate::expressions::ExprView;
use crate::tokens::Token;

verus! {

/// A statement.
#[derive(Debug)]
pub enum Stmt {
    /// An expression evaluated for its effect.
    Expression(Expr),
    /// A function declaration: name, parameters, body.
    Function(Token, Vec<Token>, Vec<Stmt>),
    /// `if`: condition, then-branch, else-branch.
    If(Expr, Box<Stmt>, Option<Box<Stmt>>),
    /// `print`.
    Print(Expr),
    /// `return`: the keyword and the returned expression.
    Return(Token, Option<Expr>),
    /// `var`: the name and the initializer.
    Var(Token, Option<Expr>),
    /// `while`: condition and body.
    While(Expr, Box<Stmt>),
    /// A block, which opens a scope.
    Block(Vec<Stmt>),
}

/// The mathematical value of a [`Stmt`].
pub ghost enum StmtView {
    Expression(ExprView),
    Function(Token, Seq<Token>, Seq<StmtView>),
    If(ExprView, Box<StmtView>, Option<Box<StmtView>>),
    Print(ExprView),
    Return(Token, Option<ExprView>),
    Var(Token, Option<ExprView>),
    While(ExprView, Box<StmtView>),
    Block(Seq<StmtView>),
}

/// The value of an expression that may be absent.
pub open spec fn optional_view(expression: Option<Expr>) -> Option<ExprView> {
    match expression {
        Some(e) => Some(e@),
        None => None,
    }
}

/// The values of a list of statements.
pub open spec fn stmt_views(list: Seq<Stmt>) -> Seq<StmtView>
    decreases list,
{
    Seq::new(list.len(), |i: int| if 0 <= i < list.len() { list[i].model() } else { arbitrary() })
}

impl Stmt {
    /// The value of this statement.
    pub open spec fn model(&self) -> StmtView
        decreases self,
    {
        match self {
            Stmt::Expression(e) => StmtView::Expression(e@),
            Stmt::Function(name, parameters, body) => StmtView::Function(*name, parameters@, stmt_views(body@)),
            Stmt::If(condition, then_branch, else_branch) => StmtView::If(
                condition@,
                Box::new(then_branch.model()),
                match else_branch {
                    Some(branch) => Some(Box::new(branch.model())),
                    None => None,
                },
            ),
            Stmt::Print(e) => StmtView::Print(e@),
            Stmt::Return(keyword, value) => StmtView::Return(*keyword, optional_view(*value)),
            Stmt::Var(name, initializer) => StmtView::Var(*name, optional_view(*initializer)),
            Stmt::While(condition, body) => StmtView::While(condition@, Box::new(body.model())),
            Stmt::Block(body) => StmtView::Block(stmt_views(body@)),
        }
    }
}

impl View for Stmt {
    type V = StmtView;

    open spec fn view(&self) -> StmtView {
        self.model()
    }
}


/// The names of the first `count` tokens of a list, a space between them.
pub open spec fn names_text(list: Seq<Token>, count: int) -> Seq<char>
    decreases count,
{
    if 0 < count <= list.len() {
        if count == 1 {
            list[0].name@
        } else {
            names_text(list, count - 1) + " "@ + list[count - 1].name@
        }
    } else {
        Seq::empty()
    }
}

/// The texts of the first `count` statements of a list, a space before
/// each.
pub open spec fn block_text(list: Seq<Stmt>, count: int) -> Seq<char>
    decreases list, count,
{
    if 0 < count <= list.len() {
        block_text(list, count - 1) + " "@ + list[count - 1].text()
    } else {
        Seq::empty()
    }
}

impl Stmt {
    /// The statement in prefix notation: its kind first, in parentheses
    /// with its parts.
    pub open spec fn text(&self) -> Seq<char>
        decreases self, 0int,
    {
        match self {
            Stmt::Expression(e) => "(expr "@ + e.text() + ")"@,
            Stmt::Function(name, parameters, body) => "(fun "@ + name.name@ + " ("@ + names_text(
                parameters@,
                parameters@.len() as int,
            ) + ")"@ + block_text(body@, body@.len() as int) + ")"@,
            Stmt::If(condition, then_branch, else_branch) => "(if "@ + condition.text() + " "@
                + then_branch.text() + match else_branch {
                Some(branch) => " "@ + branch.text(),
                None => Seq::empty(),
            } + ")"@,
            Stmt::Print(e) => "(print "@ + e.text() + ")"@,
            Stmt::Return(_, value) => match value {
                Some(e) => "(return "@ + e.text() + ")"@,
                None => "(return)"@,
            },
            Stmt::Var(name, initializer) => match initializer {
                Some(e) => "(var "@ + name.name@ + " "@ + e.text() + ")"@,
                None => "(var "@ + name.name@ + ")"@,
            },
            Stmt::While(condition, body) => "(while "@ + condition.text() + " "@ + body.text() + ")"@,
            Stmt::Block(body) => "(block"@ + block_text(body@, body@.len() as int) + ")"@,
        }
    }

    /// Appends the text of the statement to `out`.
    pub fn write(&self, out: &mut String)
        ensures
            final(out)@ == old(out)@ + self.text(),
        decreases self, 1int,
    {
        match self {
            Stmt::Expression(e) => {
                out.append("(expr ");
                e.write(out);
                out.append(")");
            },
            Stmt::Function(name, parameters, body) => {
                out.append("(fun ");
                out.append(name.name.as_str());
                out.append(" (");
                let ghost before = out@;
                let mut i: usize = 0;
                while i < parameters.len()
                    invariant
                        i <= parameters@.len(),
                        out@ == before + names_text(parameters@, i as int),
                    decreases parameters@.len() - i,
                {
                    if i > 0 {
                        out.append(" ");
                    }
                    out.append(parameters[i].name.as_str());
                    i = i + 1;
                    assert(out@ =~= before + names_text(parameters@, i as int));
                }
                out.append(")");
                write_block(body, out);
                out.append(")");
            },
            Stmt::If(condition, then_branch, else_branch) => {
                out.append("(if ");
                condition.write(out);
                out.append(" ");
                then_branch.write(out);
                match else_branch {
                    Some(branch) => {
                        out.append(" ");
                        branch.write(out);
                    },
                    None => {},
                }
                out.append(")");
            },
            Stmt::Print(e) => {
                out.append("(print ");
                e.write(out);
                out.append(")");
            },
            Stmt::Return(_, value) => match value {
                Some(e) => {
                    out.append("(return ");
                    e.write(out);
                    out.append(")");
                },
                None => {
                    out.append("(return)");
                },
            },
            Stmt::Var(name, initializer) => {
                out.append("(var ");
                out.append(name.name.as_str());
                match initializer {
                    Some(e) => {
                        out.append(" ");
                        e.write(out);
                    },
                    None => {},
                }
                out.append(")");
            },
            Stmt::While(condition, body) => {
                out.append("(while ");
                condition.write(out);
                out.append(" ");
                body.write(out);
                out.append(")");
            },
            Stmt::Block(body) => {
                out.append("(block");
                write_block(body, out);
                out.append(")");
            },
        }
        assert(out@ =~= old(out)@ + self.text());
    }

    /// The text of the statement.
    pub fn to_string(&self) -> (text: String)
        ensures
            text@ == self.text(),
    {
        let mut text = String::new();
        self.write(&mut text);
        assert(text@ =~= self.text());
        text
    }
}

/// Appends the texts of the statements of `list` to `out`, a space before
/// each.
pub fn write_block(list: &Vec<Stmt>, out: &mut String)
    ensures
        final(out)@ == old(out)@ + block_text(list@, list@.len() as int),
    decreases list, 0int,
{
    let mut i: usize = 0;
    while i < list.len()
        invariant
            i <= list@.len(),
            out@ == old(out)@ + block_text(list@, i as int),
        decreases list@.len() - i,
    {
        out.append(" ");
        list[i].write(out);
        i = i + 1;
        assert(out@ =~= old(out)@ + block_text(list@, i as int));
    }
}

} // verus!

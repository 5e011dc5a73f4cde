//! The syntax tree that the parser builds.

use vstd::prelude::*;
use crate::parsing::lexer::{Token, TokenView, tokens_view};

verus! {

/// The operator of a compound assignment.
#[derive(Clone, Copy, Debug, PartialEq, Eq, Structural)]
pub enum Operation {
    /// `+=`: append to the variable.
    PlusEqual,
    /// `-=`: remove from the variable.
    MinusEqual,
}

/// One top-level construct of the input.
#[derive(Debug, PartialEq, Eq)]
pub enum Item<'a> {
    /// A simple assignment: `name = value...`.
    Decl { name: Token<'a>, value: Vec<Token<'a>> },
    /// A compound assignment: `left += right` or `left -= right`.
    Expr { left: Token<'a>, op: Operation, right: Token<'a> },
    /// A build rule: the target, its dependencies and its command lines, all
    /// as the tokens that stood in the source.
    Job { target: Token<'a>, dependencies: Vec<Token<'a>>, body: Vec<Vec<Token<'a>>> },
    /// A conditional block. `negate` is set for `ifneq`. Both bodies hold
    /// assignments only.
    If {
        negate: bool,
        left: Token<'a>,
        right: Token<'a>,
        then_body: Vec<Item<'a>>,
        else_body: Vec<Item<'a>>,
    },
}

/// An item as a mathematical value.
pub enum ItemView {
    Decl { name: TokenView, value: Seq<TokenView> },
    Expr { left: TokenView, op: Operation, right: TokenView },
    Job { target: TokenView, dependencies: Seq<TokenView>, body: Seq<Seq<TokenView>> },
    If {
        negate: bool,
        left: TokenView,
        right: TokenView,
        then_body: Seq<ItemView>,
        else_body: Seq<ItemView>,
    },
}

impl ItemView {
    /// Whether the item is a simple or a compound assignment.
    pub open spec fn is_assignment(self) -> bool {
        self is Decl || self is Expr
    }
}

/// The views of the token lines of a job's body.
pub open spec fn body_view(body: Seq<Vec<Token>>) -> Seq<Seq<TokenView>> {
    body.map_values(|line: Vec<Token>| tokens_view(line@))
}

impl<'a> View for Item<'a> {
    type V = ItemView;

    open spec fn view(&self) -> ItemView
        decreases self,
    {
        match self {
            Item::Decl { name, value } => ItemView::Decl { name: name@, value: tokens_view(value@) },
            Item::Expr { left, op, right } => ItemView::Expr {
                left: left@,
                op: *op,
                right: right@,
            },
            Item::Job { target, dependencies, body } => ItemView::Job {
                target: target@,
                dependencies: tokens_view(dependencies@),
                body: body_view(body@),
            },
            Item::If { negate, left, right, then_body, else_body } => ItemView::If {
                negate: *negate,
                left: left@,
                right: right@,
                then_body: items_view(then_body@),
                else_body: items_view(else_body@),
            },
        }
    }
}

/// The views of a sequence of items, in the same order.
pub open spec fn items_view(items: Seq<Item>) -> Seq<ItemView>
    decreases items,
{
    if items.len() == 0 {
        Seq::empty()
    } else {
        items_view(items.drop_last()).push(items.last().view())
    }
}

/// `items_view` keeps the length and takes the view of each item.
pub proof fn lemma_items_view(items: Seq<Item>)
    ensures
        items_view(items).len() == items.len(),
        forall|i: int| 0 <= i < items.len() ==> #[trigger] items_view(items)[i] == items[i]@,
    decreases items.len(),
{
    if items.len() > 0 {
        lemma_items_view(items.drop_last());
        assert(items_view(items) == items_view(items.drop_last()).push(items.last().view()));
    }
}

/// The view of a sequence with one more item.
pub proof fn lemma_items_view_push(items: Seq<Item>, item: Item)
    ensures
        items_view(items.push(item)) == items_view(items).push(item@),
{
    assert(items.push(item).drop_last() =~= items);
}

/// The syntax tree: the top-level items in source order.
#[derive(Debug, PartialEq, Eq)]
pub struct Ast<'a> {
    pub items: Vec<Item<'a>>,
}

impl<'a> View for Ast<'a> {
    type V = Seq<ItemView>;

    open spec fn view(&self) -> Seq<ItemView> {
        items_view(self.items@)
    }
}

impl<'a> Default for Ast<'a> {
    fn default() -> (ast: Self)
        ensures
            ast@ == Seq::<ItemView>::empty(),
    {
        Ast { items: Vec::new() }
    }
}

} // verus!

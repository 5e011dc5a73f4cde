//! What the parser accepts, as functions on the views of the token lines.
//!
//! Four forms are recognised, by the first token of a line: a conditional
//! block, an assignment, a job rule, and lines that are passed over. The
//! functions here say, for a position in the input, which item stands there,
//! how many lines it takes, or which fault ends the parse.

use vstd::prelude::*;
use crate::text::ends_with;
use crate::parsing::lexer::{TokenType, TokenView, LineView};
use crate::parsing::ast::{ItemView, Operation};
use crate::parsing::parser::ErrorType;

verus! {

/// Why a parse ends without a tree: the classification and the offending token.
pub struct Fault {
    pub ty: ErrorType,
    pub at: TokenView,
}

/// What stands at a position of the input: an item or nothing, and how many
/// lines it takes beyond the first.
pub struct Parsed {
    pub item: Option<ItemView>,
    pub extra: nat,
}

/// Whether some token of the line has the given text.
pub open spec fn has_text(line: Seq<TokenView>, text: Seq<char>) -> bool {
    exists|i: int| 0 <= i < line.len() && (#[trigger] line[i]).text == text
}

/// Whether some token of the line has the given classification.
pub open spec fn has_type(line: Seq<TokenView>, typ: TokenType) -> bool {
    exists|i: int| 0 <= i < line.len() && (#[trigger] line[i]).typ == typ
}

/// Whether `i` is the index of the first token of the given classification.
pub open spec fn is_first_of(line: Seq<TokenView>, typ: TokenType, i: int) -> bool {
    &&& 0 <= i < line.len()
    &&& line[i].typ == typ
    &&& forall|j: int| 0 <= j < i ==> (#[trigger] line[j]).typ != typ
}

/// The index of the first token of the given classification, if there is one.
pub open spec fn position(line: Seq<TokenView>, typ: TokenType) -> Option<int> {
    if has_type(line, typ) {
        Some(choose|i: int| is_first_of(line, typ, i))
    } else {
        None
    }
}

/// Whether the text opens a conditional block.
pub open spec fn is_if_keyword(text: Seq<char>) -> bool {
    text == "ifeq"@ || text == "ifneq"@
}

/// A line that switches a conditional block to its else branch.
pub open spec fn is_else(line: Seq<TokenView>) -> bool {
    has_text(line, "else"@)
}

/// A line that closes a conditional block.
pub open spec fn is_endif(line: Seq<TokenView>) -> bool {
    !is_else(line) && has_text(line, "endif"@)
}

/// The token without the last character of its text: a name written together
/// with the operator of a compound assignment, as in `NAME+`.
pub open spec fn strip_operator(token: TokenView) -> TokenView {
    TokenView { text: token.text.drop_last(), ..token }
}

/// A compound assignment whose operator is a token of its own: the name
/// stands two tokens before the `=`, the operand at `right`.
pub open spec fn separate_operator(line: Seq<TokenView>, eq: int, op: Operation, right: int) -> Result<
    ItemView,
    Fault,
> {
    if right >= line.len() {
        Err(Fault { ty: ErrorType::ExpectedRightSide, at: line[eq] })
    } else if eq < 2 {
        Err(Fault { ty: ErrorType::ExpectedLeftSide, at: line[eq - 1] })
    } else {
        Ok(ItemView::Expr { left: line[eq - 2], op, right: line[right] })
    }
}

/// A compound assignment whose operator ends the name's token: the name is
/// that token without the operator, the operand follows the `=`.
pub open spec fn joined_operator(line: Seq<TokenView>, eq: int, op: Operation) -> Result<
    ItemView,
    Fault,
> {
    if eq + 1 >= line.len() {
        Err(Fault { ty: ErrorType::ExpectedRightSide, at: line[eq] })
    } else {
        Ok(ItemView::Expr { left: strip_operator(line[eq - 1]), op, right: line[eq + 1] })
    }
}

/// The assignment on a line whose `=` stands at index `eq`.
///
/// The token before the `=` decides. A `+`, alone or at the end of a name,
/// makes an append; a `-` makes a removal, and after a `-` that stands alone
/// the operand is the second token after the `=`, not the first. Anything
/// else is a simple assignment of all the tokens after the `=` to the line's
/// first token.
pub open spec fn assignment(line: Seq<TokenView>, eq: int) -> Result<ItemView, Fault>
    recommends
        0 < eq < line.len(),
{
    let marker = line[eq - 1].text;
    if marker == "+"@ {
        separate_operator(line, eq, Operation::PlusEqual, eq + 1)
    } else if ends_with(marker, '+') {
        joined_operator(line, eq, Operation::PlusEqual)
    } else if marker == "-"@ {
        separate_operator(line, eq, Operation::MinusEqual, eq + 2)
    } else if ends_with(marker, '-') {
        joined_operator(line, eq, Operation::MinusEqual)
    } else {
        Ok(ItemView::Decl { name: line[0], value: line.subrange(eq + 1, line.len() as int) })
    }
}

/// What a line inside a conditional block adds to the branch it stands in:
/// nothing, unless it is an assignment with a token before its `=`.
pub open spec fn branch_line(line: Seq<TokenView>) -> Option<Result<ItemView, Fault>> {
    if is_else(line) {
        None
    } else {
        match position(line, TokenType::Equal) {
            Some(eq) => if eq > 0 {
                Some(assignment(line, eq))
            } else {
                None
            },
            None => None,
        }
    }
}

/// The assignments on the lines `from..to`, in order, or the first fault
/// among them.
pub open spec fn branch(lines: Seq<LineView>, from: int, to: int) -> Result<Seq<ItemView>, Fault>
    decreases to - from,
{
    if from >= to {
        Ok(Seq::empty())
    } else {
        match branch(lines, from, to - 1) {
            Err(fault) => Err(fault),
            Ok(items) => match branch_line(lines[to - 1].tokens) {
                None => Ok(items),
                Some(Ok(item)) => Ok(items.push(item)),
                Some(Err(fault)) => Err(fault),
            },
        }
    }
}

/// The index of the first line at or after `from` that closes a conditional
/// block.
pub open spec fn closing(lines: Seq<LineView>, from: int) -> Option<int>
    decreases lines.len() - from,
{
    if from >= lines.len() {
        None
    } else if is_endif(lines[from].tokens) {
        Some(from)
    } else {
        closing(lines, from + 1)
    }
}

/// The index of the first else line in `from..to`, or `to` if there is none.
pub open spec fn else_line(lines: Seq<LineView>, from: int, to: int) -> int
    decreases to - from,
{
    if from >= to {
        to
    } else if is_else(lines[from].tokens) {
        from
    } else {
        else_line(lines, from + 1, to)
    }
}

/// The conditional block that opens on line `pos`.
///
/// The block runs to the first closing line; without one the parse fails,
/// whatever stands in the block. The assignments before the first else line
/// make the then branch, those after it the else branch. The two operands
/// are the second and third token of the opening line.
pub open spec fn conditional(lines: Seq<LineView>, pos: int) -> Result<Parsed, Fault>
    recommends
        0 <= pos < lines.len(),
        lines[pos].tokens.len() > 0,
{
    let line = lines[pos].tokens;
    match closing(lines, pos + 1) {
        None => Err(Fault { ty: ErrorType::NoClosingEndif, at: line[0] }),
        Some(end) => {
            let middle = else_line(lines, pos + 1, end);
            match branch(lines, pos + 1, middle) {
                Err(fault) => Err(fault),
                Ok(then_body) => match branch(lines, middle + 1, end) {
                    Err(fault) => Err(fault),
                    Ok(else_body) => if line.len() < 2 {
                        Err(Fault { ty: ErrorType::IfWithoutLeftSide, at: line[0] })
                    } else if line.len() < 3 {
                        Err(Fault { ty: ErrorType::IfWithoutRightSide, at: line[0] })
                    } else {
                        Ok(
                            Parsed {
                                item: Some(
                                    ItemView::If {
                                        negate: line[0].text == "ifneq"@,
                                        left: line[1],
                                        right: line[2],
                                        then_body,
                                        else_body,
                                    },
                                ),
                                extra: (end - pos) as nat,
                            },
                        )
                    },
                },
            }
        },
    }
}

/// The index of the first line at or after `from` that is not indented, or
/// the number of lines if all of them are.
pub open spec fn body_end(lines: Seq<LineView>, from: int) -> int
    decreases lines.len() - from,
{
    if from >= lines.len() {
        lines.len() as int
    } else if lines[from].level == 0 {
        from
    } else {
        body_end(lines, from + 1)
    }
}

/// The tokens of the lines `from..to`, line by line.
pub open spec fn body_lines(lines: Seq<LineView>, from: int, to: int) -> Seq<Seq<TokenView>> {
    lines.subrange(from, to).map_values(|line: LineView| line.tokens)
}

/// The job rule on line `pos`, whose first `:` stands at index `colon`.
///
/// Exactly one token may stand before the `:`. The tokens after it are the
/// dependencies, and the indented lines that follow at once are the body.
pub open spec fn rule(lines: Seq<LineView>, pos: int, colon: int) -> Result<Parsed, Fault>
    recommends
        0 <= pos < lines.len(),
        0 < colon < lines[pos].tokens.len(),
{
    let line = lines[pos].tokens;
    if colon > 1 {
        Err(Fault { ty: ErrorType::ExpectedOnlyOneTokenOnTheLeftSide, at: line[0] })
    } else {
        let end = body_end(lines, pos + 1);
        Ok(
            Parsed {
                item: Some(
                    ItemView::Job {
                        target: line[0],
                        dependencies: line.subrange(colon + 1, line.len() as int),
                        body: body_lines(lines, pos + 1, end),
                    },
                ),
                extra: (end - pos - 1) as nat,
            },
        )
    }
}

/// What stands on line `pos`.
///
/// An empty line and a line that starts with `endif` are passed over. A line
/// that starts with plain text is a conditional block if that text is `ifeq`
/// or `ifneq`, else an assignment if it holds an `=`, else a job rule if it
/// holds a `:`. Every other line is a fault.
pub open spec fn construct(lines: Seq<LineView>, pos: int) -> Result<Parsed, Fault>
    recommends
        0 <= pos < lines.len(),
{
    let line = lines[pos].tokens;
    if line.len() == 0 || line[0].text == "endif"@ {
        Ok(Parsed { item: None, extra: 0 })
    } else {
        match line[0].typ {
            TokenType::Literal => if is_if_keyword(line[0].text) {
                conditional(lines, pos)
            } else if position(line, TokenType::Equal) is Some {
                match assignment(line, position(line, TokenType::Equal)->0) {
                    Ok(item) => Ok(Parsed { item: Some(item), extra: 0 }),
                    Err(fault) => Err(fault),
                }
            } else if position(line, TokenType::Colon) is Some {
                rule(lines, pos, position(line, TokenType::Colon)->0)
            } else {
                Err(Fault { ty: ErrorType::UnexpectedToken, at: line[0] })
            },
            TokenType::Colon => Err(Fault { ty: ErrorType::JobWithoutTarget, at: line[0] }),
            _ => Err(Fault { ty: ErrorType::UnexpectedToken, at: line[0] }),
        }
    }
}

/// The items of the lines from `pos` on, in source order, or the first fault.
pub open spec fn items_from(lines: Seq<LineView>, pos: int) -> Result<Seq<ItemView>, Fault>
    decreases
        (if pos < lines.len() {
            lines.len() - pos
        } else {
            0
        }),
{
    if pos < 0 || pos >= lines.len() {
        Ok(Seq::empty())
    } else {
        match construct(lines, pos) {
            Err(fault) => Err(fault),
            Ok(parsed) => match items_from(lines, pos + 1 + parsed.extra) {
                Err(fault) => Err(fault),
                Ok(rest) => match parsed.item {
                    Some(item) => Ok(seq![item] + rest),
                    None => Ok(rest),
                },
            },
        }
    }
}

/// The line on which the parse from `pos` stops: the first line of the
/// construct that is at fault, or the end of the input.
pub open spec fn stop(lines: Seq<LineView>, pos: int) -> int
    decreases
        (if pos < lines.len() {
            lines.len() - pos
        } else {
            0
        }),
{
    if pos < 0 || pos >= lines.len() {
        pos
    } else {
        match construct(lines, pos) {
            Err(_) => pos,
            Ok(parsed) => stop(lines, pos + 1 + parsed.extra),
        }
    }
}

/// The note that goes with an error of the given classification.
pub open spec fn note_of(ty: ErrorType) -> Option<&'static str> {
    match ty {
        ErrorType::JobWithoutTarget => Some("Jobs without targets are not allowed here!"),
        _ => None,
    }
}

/// Whether a line inside a conditional block is an assignment: it is no else
/// line and holds an `=` with a token before it.
pub open spec fn is_assignment_line(line: LineView) -> bool {
    branch_line(line.tokens) is Some
}

/// The assignment on a line inside a conditional block.
pub open spec fn assignment_on(line: LineView) -> ItemView {
    branch_line(line.tokens)->0->Ok_0
}

/// The assignments on the assignment lines of a block, in the order of the
/// lines.
pub open spec fn assignments_of(block: Seq<LineView>) -> Seq<ItemView> {
    block.filter(|line: LineView| is_assignment_line(line)).map_values(|line: LineView| assignment_on(line))
}

/// Whether every assignment line among the lines `from..to` has the operands
/// that its operator asks for.
pub open spec fn complete(lines: Seq<LineView>, from: int, to: int) -> bool {
    forall|j: int| from <= j < to ==> !(branch_line(#[trigger] lines[j].tokens) matches Some(Err(_)))
}

/// Whether an item is what the parser builds: the branches of a conditional
/// block hold assignments only.
pub open spec fn well_formed(item: ItemView) -> bool {
    match item {
        ItemView::If { then_body, else_body, .. } => {
            &&& forall|i: int| 0 <= i < then_body.len() ==> (#[trigger] then_body[i]).is_assignment()
            &&& forall|i: int| 0 <= i < else_body.len() ==> (#[trigger] else_body[i]).is_assignment()
        },
        _ => true,
    }
}

/// `position` is the one index that `is_first_of` holds of.
pub proof fn lemma_position(line: Seq<TokenView>, typ: TokenType, i: int)
    requires
        is_first_of(line, typ, i),
    ensures
        position(line, typ) == Some(i),
{
    let j = choose|j: int| is_first_of(line, typ, j);
}

/// The keywords differ from one another.
pub proof fn lemma_keywords()
    ensures
        "ifeq"@ != "endif"@,
        "ifneq"@ != "endif"@,
        "ifeq"@ != "ifneq"@,
        "else"@ != "endif"@,
{
    reveal_strlit("ifeq");
    reveal_strlit("ifneq");
    reveal_strlit("endif");
    reveal_strlit("else");
    assert("ifneq"@.len() == 5);
    assert("else"@.len() == 4);
    assert("endif"@[0] == 'e');
}

/// A body runs over indented lines only and ends before a line that is not
/// indented, or with the input.
pub proof fn lemma_body_end(lines: Seq<LineView>, from: int)
    requires
        0 <= from <= lines.len(),
    ensures
        from <= body_end(lines, from) <= lines.len(),
        forall|j: int| from <= j < body_end(lines, from) ==> (#[trigger] lines[j]).level != 0,
        body_end(lines, from) < lines.len() ==> lines[body_end(lines, from)].level == 0,
    decreases lines.len() - from,
{
    if from < lines.len() && lines[from].level != 0 {
        lemma_body_end(lines, from + 1);
    }
}

/// The line that closes a block is the first closing line.
pub proof fn lemma_closing(lines: Seq<LineView>, from: int, end: int)
    requires
        0 <= from <= end < lines.len(),
        is_endif(lines[end].tokens),
        forall|j: int| from <= j < end ==> !is_endif(#[trigger] lines[j].tokens),
    ensures
        closing(lines, from) == Some(end),
    decreases end - from,
{
    if from < end {
        lemma_closing(lines, from + 1, end);
    }
}

/// Without a closing line there is no end of the block.
pub proof fn lemma_no_closing(lines: Seq<LineView>, from: int)
    requires
        0 <= from,
        forall|j: int| from <= j < lines.len() ==> !is_endif(#[trigger] lines[j].tokens),
    ensures
        closing(lines, from) is None,
    decreases lines.len() - from,
{
    if from < lines.len() {
        lemma_no_closing(lines, from + 1);
    }
}

/// The line that closes a block lies within the input.
pub proof fn lemma_closing_bounds(lines: Seq<LineView>, from: int)
    requires
        0 <= from,
    ensures
        closing(lines, from) is Some ==> from <= closing(lines, from)->0 < lines.len(),
    decreases lines.len() - from,
{
    if from < lines.len() && !is_endif(lines[from].tokens) {
        lemma_closing_bounds(lines, from + 1);
    }
}

/// The else line of a block is its first else line, or its end if it has
/// none.
pub proof fn lemma_else_line(lines: Seq<LineView>, from: int, middle: int, to: int)
    requires
        from <= middle <= to,
        middle < to ==> is_else(lines[middle].tokens),
        forall|j: int| from <= j < middle ==> !is_else(#[trigger] lines[j].tokens),
    ensures
        else_line(lines, from, to) == middle,
    decreases middle - from,
{
    if from < middle {
        lemma_else_line(lines, from + 1, middle, to);
    }
}

/// The first else line of `from..to` lies in `from..=to`.
pub proof fn lemma_else_line_bounds(lines: Seq<LineView>, from: int, to: int)
    requires
        from <= to,
    ensures
        from <= else_line(lines, from, to) <= to,
    decreases to - from,
{
    if from < to && !is_else(lines[from].tokens) {
        lemma_else_line_bounds(lines, from + 1, to);
    }
}

/// A fault among the lines `from..mid` is the fault of every longer range.
pub proof fn lemma_branch_fault(lines: Seq<LineView>, from: int, mid: int, to: int)
    requires
        mid <= to,
        branch(lines, from, mid) is Err,
    ensures
        branch(lines, from, to) == branch(lines, from, mid),
    decreases to - mid,
{
    if mid < to {
        lemma_branch_fault(lines, from, mid, to - 1);
    }
}

/// Where every assignment line is complete, a branch holds the assignments
/// of its assignment lines, in the order of the lines.
pub proof fn lemma_branch(lines: Seq<LineView>, from: int, to: int)
    requires
        0 <= from <= to <= lines.len(),
        complete(lines, from, to),
    ensures
        branch(lines, from, to) == Ok::<Seq<ItemView>, Fault>(assignments_of(lines.subrange(from, to))),
    decreases to - from,
{
    let block = lines.subrange(from, to);
    let keep = |line: LineView| is_assignment_line(line);
    let take = |line: LineView| assignment_on(line);
    reveal(Seq::filter);
    if from < to {
        lemma_branch(lines, from, to - 1);
        assert(block.drop_last() =~= lines.subrange(from, to - 1));
        if keep(block.last()) {
            assert(block.filter(keep).map_values(take) =~= block.drop_last().filter(keep).map_values(
                take,
            ).push(take(block.last())));
        }
    } else {
        assert(block.filter(keep).map_values(take) =~= Seq::<ItemView>::empty());
    }
}

/// A branch holds assignments only.
pub proof fn lemma_branch_kind(lines: Seq<LineView>, from: int, to: int)
    ensures
        branch(lines, from, to) is Ok ==> forall|i: int|
            0 <= i < branch(lines, from, to)->Ok_0.len() ==> (#[trigger] branch(
                lines,
                from,
                to,
            )->Ok_0[i]).is_assignment(),
    decreases to - from,
{
    if from < to {
        lemma_branch_kind(lines, from, to - 1);
    }
}

/// A job rule becomes exactly one job: a line that starts with a plain token
/// other than `endif`, `ifeq` and `ifneq`, goes on with a `:` and holds no
/// `=` gives one `Job` item. Its target is the token before the `:`, its
/// dependencies are the tokens after the `:` in their order, and its body
/// are the indented lines that follow at once.
pub proof fn lemma_job_rule(lines: Seq<LineView>, pos: int)
    requires
        0 <= pos < lines.len(),
        lines[pos].tokens.len() >= 2,
        lines[pos].tokens[0].typ == TokenType::Literal,
        lines[pos].tokens[0].text != "endif"@,
        !is_if_keyword(lines[pos].tokens[0].text),
        lines[pos].tokens[1].typ == TokenType::Colon,
        !has_type(lines[pos].tokens, TokenType::Equal),
    ensures
        construct(lines, pos) == Ok::<Parsed, Fault>(
            Parsed {
                item: Some(
                    ItemView::Job {
                        target: lines[pos].tokens[0],
                        dependencies: lines[pos].tokens.subrange(2, lines[pos].tokens.len() as int),
                        body: body_lines(lines, pos + 1, body_end(lines, pos + 1)),
                    },
                ),
                extra: (body_end(lines, pos + 1) - pos - 1) as nat,
            },
        ),
        pos + 1 <= body_end(lines, pos + 1) <= lines.len(),
        forall|j: int| pos + 1 <= j < body_end(lines, pos + 1) ==> (#[trigger] lines[j]).level != 0,
        body_end(lines, pos + 1) < lines.len() ==> lines[body_end(lines, pos + 1)].level == 0,
        items_from(lines, pos) == match items_from(lines, body_end(lines, pos + 1)) {
            Ok(rest) => Ok::<Seq<ItemView>, Fault>(
                seq![
                    ItemView::Job {
                        target: lines[pos].tokens[0],
                        dependencies: lines[pos].tokens.subrange(2, lines[pos].tokens.len() as int),
                        body: body_lines(lines, pos + 1, body_end(lines, pos + 1)),
                    },
                ] + rest,
            ),
            Err(fault) => Err(fault),
        },
{
    lemma_position(lines[pos].tokens, TokenType::Colon, 1);
    lemma_body_end(lines, pos + 1);
}

/// A conditional block with a closing line is parsed, and its assignments
/// are divided at its first else line.
///
/// Let the line `pos` open the block with `ifeq` or `ifneq` and two operands,
/// let `end` be the first closing line after it, let `middle` be the first
/// else line between them, or `end` if there is none, and let every
/// assignment line between `pos` and `end` be complete. Then the block is one
/// `If` item that takes the lines up to and including `end`. Its then branch
/// holds the assignments of the lines before `middle`, its else branch those
/// of the lines after `middle`, both in the order of the lines.
pub proof fn lemma_conditional_block(lines: Seq<LineView>, pos: int, middle: int, end: int)
    requires
        0 <= pos < middle <= end < lines.len(),
        lines[pos].tokens.len() >= 3,
        lines[pos].tokens[0].typ == TokenType::Literal,
        is_if_keyword(lines[pos].tokens[0].text),
        is_endif(lines[end].tokens),
        forall|j: int| pos < j < end ==> !is_endif(#[trigger] lines[j].tokens),
        middle < end ==> is_else(lines[middle].tokens),
        forall|j: int| pos < j < middle ==> !is_else(#[trigger] lines[j].tokens),
        complete(lines, pos + 1, end),
    ensures
        construct(lines, pos) == Ok::<Parsed, Fault>(
            Parsed {
                item: Some(
                    ItemView::If {
                        negate: lines[pos].tokens[0].text == "ifneq"@,
                        left: lines[pos].tokens[1],
                        right: lines[pos].tokens[2],
                        then_body: assignments_of(lines.subrange(pos + 1, middle)),
                        else_body: assignments_of(
                            lines.subrange(
                                if middle < end {
                                    middle + 1
                                } else {
                                    end
                                },
                                end,
                            ),
                        ),
                    },
                ),
                extra: (end - pos) as nat,
            },
        ),
{
    lemma_keywords();
    lemma_closing(lines, pos + 1, end);
    lemma_else_line(lines, pos + 1, middle, end);
    lemma_branch(lines, pos + 1, middle);
    if middle < end {
        lemma_branch(lines, middle + 1, end);
    } else {
        lemma_branch(lines, end, end);
    }
}

/// A conditional block without a closing line fails with `NoClosingEndif`,
/// at its first token, whatever the lines after it hold.
pub proof fn lemma_conditional_open(lines: Seq<LineView>, pos: int)
    requires
        0 <= pos < lines.len(),
        lines[pos].tokens.len() >= 1,
        lines[pos].tokens[0].typ == TokenType::Literal,
        is_if_keyword(lines[pos].tokens[0].text),
        forall|j: int| pos < j < lines.len() ==> !is_endif(#[trigger] lines[j].tokens),
    ensures
        construct(lines, pos) == Err::<Parsed, Fault>(
            Fault { ty: ErrorType::NoClosingEndif, at: lines[pos].tokens[0] },
        ),
        items_from(lines, pos) == Err::<Seq<ItemView>, Fault>(
            Fault { ty: ErrorType::NoClosingEndif, at: lines[pos].tokens[0] },
        ),
{
    lemma_keywords();
    lemma_no_closing(lines, pos + 1);
}

/// Every item that a parse gives is well formed, and so the branches of its
/// conditional blocks hold neither jobs nor conditional blocks.
pub proof fn lemma_items_well_formed(lines: Seq<LineView>, pos: int)
    ensures
        items_from(lines, pos) is Ok ==> forall|i: int|
            0 <= i < items_from(lines, pos)->Ok_0.len() ==> well_formed(
                #[trigger] items_from(lines, pos)->Ok_0[i],
            ),
    decreases
        (if pos < lines.len() {
            lines.len() - pos
        } else {
            0
        }),
{
    if 0 <= pos < lines.len() {
        if let Ok(parsed) = construct(lines, pos) {
            lemma_items_well_formed(lines, pos + 1 + parsed.extra);
            let line = lines[pos].tokens;
            if line.len() > 0 && line[0].typ == TokenType::Literal && is_if_keyword(line[0].text) {
                if let Some(end) = closing(lines, pos + 1) {
                    let middle = else_line(lines, pos + 1, end);
                    lemma_branch_kind(lines, pos + 1, middle);
                    lemma_branch_kind(lines, middle + 1, end);
                }
            }
        }
    }
}

/// What stands on a line takes lines of the input only.
pub proof fn lemma_construct_extent(lines: Seq<LineView>, pos: int)
    requires
        0 <= pos < lines.len(),
        construct(lines, pos) is Ok,
    ensures
        pos + 1 + construct(lines, pos)->Ok_0.extra <= lines.len(),
{
    lemma_closing_bounds(lines, pos + 1);
    lemma_body_end(lines, pos + 1);
}

/// A parse that gives a tree stops at the end of the input. A parse that
/// fails stops before it, on the line of the construct that is at fault.
pub proof fn lemma_stop(lines: Seq<LineView>, pos: int)
    requires
        0 <= pos <= lines.len(),
    ensures
        pos <= stop(lines, pos) <= lines.len(),
        items_from(lines, pos) is Ok <==> stop(lines, pos) == lines.len(),
        items_from(lines, pos) is Err ==> construct(lines, stop(lines, pos)) == Err::<Parsed, Fault>(
            items_from(lines, pos)->Err_0,
        ),
    decreases lines.len() - pos,
{
    if pos < lines.len() {
        if let Ok(parsed) = construct(lines, pos) {
            lemma_construct_extent(lines, pos);
            lemma_stop(lines, pos + 1 + parsed.extra);
        }
    }
}

} // verus!

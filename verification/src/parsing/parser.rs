//! The parser: from token lines to the syntax tree.

use vstd::prelude::*;
use vstd::string::*;
use crate::text::{same_text, has_last_char, without_last_char};
use crate::parsing::lexer::{
    Token, TokenType, TokenView, Tokens, LinizedTokens, LineView, tokens_view, lines_view, location,
};
use crate::parsing::ast::{Ast, Item, ItemView, Operation, items_view, body_view, lemma_items_view_push};
use crate::parsing::grammar::{
    Fault, has_text, is_first_of, position, strip_operator, separate_operator, joined_operator, assignment,
    branch, closing, else_line, conditional, body_end, body_lines, rule, construct, items_from, stop, note_of,
    lemma_position, lemma_branch_fault, lemma_closing_bounds, lemma_body_end, lemma_else_line_bounds,
};

verus! {

/// The classification of a parse error.
#[derive(Clone, Copy, Debug, PartialEq, Eq, Structural)]
pub enum ErrorType {
    /// A conditional block is still open at the end of the input.
    NoClosingEndif,
    /// A line starts with a token that opens no form.
    UnexpectedToken,
    /// A line starts with the `:` of a job rule.
    JobWithoutTarget,
    /// More than one token stands before the `:` of a job rule.
    ExpectedOnlyOneTokenOnTheLeftSide,
    /// A compound assignment has no operand after its `=`.
    ExpectedRightSide,
    /// A compound assignment with a separate `+` or `-` has no name before it.
    ExpectedLeftSide,
    /// A conditional has no operand at all.
    IfWithoutLeftSide,
    /// A conditional has one operand only.
    IfWithoutRightSide,
}

/// A parse error: its classification and, for some, a note to the user.
#[derive(Clone, Copy, Debug, PartialEq, Eq)]
pub struct Error {
    pub ty: ErrorType,
    pub note: Option<&'static str>,
}

impl ErrorType {
    /// The classification in words.
    pub open spec fn text(self) -> &'static str {
        match self {
            ErrorType::NoClosingEndif => "No closing endif",
            ErrorType::UnexpectedToken => "Unexpected token",
            ErrorType::JobWithoutTarget => "Job without a target",
            ErrorType::ExpectedOnlyOneTokenOnTheLeftSide => "Expected only one token on the left side",
            ErrorType::ExpectedRightSide => "Expected right side after expression",
            ErrorType::ExpectedLeftSide => "Expected left side before operator",
            ErrorType::IfWithoutLeftSide => "If without a left_side",
            ErrorType::IfWithoutRightSide => "If without a right_side",
        }
    }

    /// The classification in words.
    pub fn as_str(&self) -> (s: &'static str)
        ensures
            s == self.text(),
    {
        match self {
            ErrorType::NoClosingEndif => "No closing endif",
            ErrorType::UnexpectedToken => "Unexpected token",
            ErrorType::JobWithoutTarget => "Job without a target",
            ErrorType::ExpectedOnlyOneTokenOnTheLeftSide => "Expected only one token on the left side",
            ErrorType::ExpectedRightSide => "Expected right side after expression",
            ErrorType::ExpectedLeftSide => "Expected left side before operator",
            ErrorType::IfWithoutLeftSide => "If without a left_side",
            ErrorType::IfWithoutRightSide => "If without a right_side",
        }
    }
}

impl Error {
    /// An error of the given classification with the given note.
    #[inline]
    pub fn new(ty: ErrorType, note: Option<&'static str>) -> (err: Self)
        ensures
            err.ty == ty,
            err.note == note,
    {
        Self { ty, note }
    }

    /// The error in words: the classification and, on a line of its own,
    /// the note if there is one.
    pub open spec fn text(self) -> Seq<char> {
        match self.note {
            Some(note) => self.ty.text()@ + "\n\tNOTE: "@ + note@,
            None => self.ty.text()@,
        }
    }

    /// The error in words.
    pub fn message(&self) -> (s: String)
        ensures
            s@ == self.text(),
    {
        let mut s = String::from_str(self.ty.as_str());
        match self.note {
            Some(note) => {
                s.append("\n\tNOTE: ");
                s.append(note);
            },
            None => {},
        }
        s
    }
}

/// The line that reports an error to the user: where the offending token
/// stood, if one is known, then the error in words.
pub open spec fn diagnostic(at: Option<TokenView>, err: Error) -> Seq<char> {
    match at {
        Some(token) => location(token) + ": [ERROR] "@ + err.text(),
        None => "[ERROR] "@ + err.text(),
    }
}

/// The view of a token that may be absent.
pub open spec fn token_option_view(token: Option<Token>) -> Option<TokenView> {
    match token {
        Some(t) => Some(t@),
        None => None,
    }
}

/// The view of an item that may be absent.
pub open spec fn item_option_view(item: Option<Item>) -> Option<ItemView> {
    match item {
        Some(i) => Some(i@),
        None => None,
    }
}

/// Whether some token of the line has the given text.
pub fn contains_text(line: &Tokens, text: &str) -> (found: bool)
    ensures
        found == has_text(tokens_view(line@), text@),
{
    let mut i: usize = 0;
    while i < line.len()
        invariant
            i <= line.len(),
            forall|j: int| 0 <= j < i ==> (#[trigger] tokens_view(line@)[j]).text != text@,
        decreases line.len() - i,
    {
        if same_text(line[i].text, text) {
            assert(tokens_view(line@)[i as int].text == text@);
            return true;
        }
        i += 1;
    }
    false
}

/// The index of the first token of the given classification.
pub fn find_type(line: &Tokens, typ: TokenType) -> (found: Option<usize>)
    ensures
        match found {
            Some(i) => {
                &&& i < line.len()
                &&& is_first_of(tokens_view(line@), typ, i as int)
                &&& position(tokens_view(line@), typ) == Some(i as int)
            },
            None => position(tokens_view(line@), typ) is None,
        },
{
    let mut i: usize = 0;
    while i < line.len()
        invariant
            i <= line.len(),
            forall|j: int| 0 <= j < i ==> (#[trigger] tokens_view(line@)[j]).typ != typ,
        decreases line.len() - i,
    {
        if line[i].typ == typ {
            proof {
                lemma_position(tokens_view(line@), typ, i as int);
            }
            return Some(i);
        }
        i += 1;
    }
    None
}

/// The tokens `from..to` of a line.
pub fn copy_range<'a>(line: &Tokens<'a>, from: usize, to: usize) -> (out: Vec<Token<'a>>)
    requires
        from <= to <= line.len(),
    ensures
        out@ == line@.subrange(from as int, to as int),
        tokens_view(out@) == tokens_view(line@).subrange(from as int, to as int),
{
    let mut out: Vec<Token<'a>> = Vec::new();
    let mut i: usize = from;
    while i < to
        invariant
            from <= i <= to <= line.len(),
            out@ == line@.subrange(from as int, i as int),
        decreases to - i,
    {
        out.push(line[i]);
        i += 1;
    }
    out
}

/// The token without the last character of its text.
pub fn strip<'a>(token: Token<'a>) -> (name: Token<'a>)
    requires
        token.text@.len() > 0,
    ensures
        name@ == strip_operator(token@),
{
    Token { typ: token.typ, text: without_last_char(token.text), row: token.row, col: token.col }
}

/// Reads token lines and builds the syntax tree.
pub struct Parser<'a> {
    lines: &'a LinizedTokens<'a>,
    pos: usize,
    err_token: Option<Token<'a>>,
}

impl<'a> Parser<'a> {
    /// The lines that the parser reads.
    pub closed spec fn input(&self) -> Seq<LineView> {
        lines_view(self.lines@)
    }

    /// The index of the next line to read.
    pub closed spec fn cursor(&self) -> int {
        self.pos as int
    }

    /// The token at which the last error was found.
    pub closed spec fn offender(&self) -> Option<TokenView> {
        token_option_view(self.err_token)
    }

    /// Whether `self` is the parser `pre` after it has failed with `err`,
    /// given that the grammar finds `fault`.
    pub open spec fn reports(&self, pre: &Self, err: Error, fault: Fault) -> bool {
        &&& err.ty == fault.ty
        &&& err.note == note_of(fault.ty)
        &&& self.offender() == Some(fault.at)
        &&& self.input() == pre.input()
        &&& self.cursor() == pre.cursor()
    }

    /// A parser at the start of the given lines.
    #[inline]
    pub fn new(ts: &'a LinizedTokens<'a>) -> (parser: Self)
        ensures
            parser.input() == lines_view(ts@),
            parser.cursor() == 0,
            parser.offender() is None,
    {
        Self { lines: ts, pos: 0, err_token: None }
    }

    /// The token at which the last error was found.
    pub fn err_token(&self) -> (token: Option<Token<'a>>)
        ensures
            token_option_view(token) == self.offender(),
    {
        self.err_token
    }

    /// The line that reports `err` to the user, with the place of the token
    /// at which the last error was found, if there is one.
    pub fn report_err(&self, err: &Error) -> (line: String)
        ensures
            line@ == diagnostic(self.offender(), *err),
    {
        let text = err.message();
        match self.err_token {
            Some(token) => {
                let mut line = token.location();
                line.append(": [ERROR] ");
                line.append(text.as_str());
                line
            },
            None => {
                let mut line = String::from_str("[ERROR] ");
                line.append(text.as_str());
                line
            },
        }
    }

    /// Records `token` as the offender and makes the error for `ty`.
    fn fail(&mut self, ty: ErrorType, token: Token<'a>) -> (err: Error)
        ensures
            final(self).reports(old(self), err, Fault { ty, at: token@ }),
    {
        self.err_token = Some(token);
        match ty {
            ErrorType::JobWithoutTarget => Error::new(
                ty,
                Some("Jobs without targets are not allowed here!"),
            ),
            _ => Error::new(ty, None),
        }
    }

    /// The error for a line whose first token opens no form. That token is
    /// recorded as the offender.
    #[inline]
    pub fn uft_err(&mut self, line: &Tokens<'a>) -> (err: Error)
        ensures
            err.ty == ErrorType::UnexpectedToken,
            err.note is None,
            final(self).offender() == (if line@.len() > 0 {
                Some(line@[0]@)
            } else {
                None
            }),
            final(self).input() == old(self).input(),
            final(self).cursor() == old(self).cursor(),
    {
        self.err_token = if line.len() > 0 {
            Some(line[0])
        } else {
            None
        };
        Error::new(ErrorType::UnexpectedToken, None)
    }

    /// Checks that one token only stands before the separator at index `pos`.
    /// If more do, `token` is recorded as the offender.
    #[inline]
    pub fn check_token_pos(&mut self, pos: usize, token: Option<Token<'a>>) -> (result: Result<(), Error>)
        ensures
            result is Ok <==> pos <= 1,
            pos <= 1 ==> *final(self) == *old(self),
            pos > 1 ==> {
                &&& result->Err_0.ty == ErrorType::ExpectedOnlyOneTokenOnTheLeftSide
                &&& result->Err_0.note is None
                &&& final(self).offender() == token_option_view(token)
                &&& final(self).input() == old(self).input()
                &&& final(self).cursor() == old(self).cursor()
            },
    {
        if pos > 1 {
            self.err_token = token;
            Err(Error::new(ErrorType::ExpectedOnlyOneTokenOnTheLeftSide, None))
        } else {
            Ok(())
        }
    }

    /// A compound assignment whose operator is a token of its own.
    fn parse_separate(&mut self, line: &Tokens<'a>, eq_idx: usize, op: Operation, right: usize) -> (result:
        Result<Item<'a>, Error>)
        requires
            0 < eq_idx < line.len(),
            eq_idx < right,
        ensures
            ({
                let expected = separate_operator(tokens_view(line@), eq_idx as int, op, right as int);
                match result {
                    Ok(item) => expected == Ok::<ItemView, Fault>(item@) && *final(self) == *old(self),
                    Err(err) => expected is Err && final(self).reports(old(self), err, expected->Err_0),
                }
            }),
    {
        if right >= line.len() {
            Err(self.fail(ErrorType::ExpectedRightSide, line[eq_idx]))
        } else if eq_idx < 2 {
            Err(self.fail(ErrorType::ExpectedLeftSide, line[eq_idx - 1]))
        } else {
            Ok(Item::Expr { left: line[eq_idx - 2], op, right: line[right] })
        }
    }

    /// A compound assignment whose operator ends the name's token.
    fn parse_joined(&mut self, line: &Tokens<'a>, eq_idx: usize, op: Operation) -> (result: Result<
        Item<'a>,
        Error,
    >)
        requires
            0 < eq_idx < line.len(),
            line@[eq_idx - 1].text@.len() > 0,
        ensures
            ({
                let expected = joined_operator(tokens_view(line@), eq_idx as int, op);
                match result {
                    Ok(item) => expected == Ok::<ItemView, Fault>(item@) && *final(self) == *old(self),
                    Err(err) => expected is Err && final(self).reports(old(self), err, expected->Err_0),
                }
            }),
    {
        if eq_idx + 1 >= line.len() {
            Err(self.fail(ErrorType::ExpectedRightSide, line[eq_idx]))
        } else {
            Ok(Item::Expr { left: strip(line[eq_idx - 1]), op, right: line[eq_idx + 1] })
        }
    }

    /// Parses the assignment on `line`, whose `=` stands at index `eq_idx`.
    pub fn parse_eq(&mut self, line: &Tokens<'a>, eq_idx: usize) -> (result: Result<Item<'a>, Error>)
        requires
            0 < eq_idx < line.len(),
        ensures
            ({
                let expected = assignment(tokens_view(line@), eq_idx as int);
                match result {
                    Ok(item) => expected == Ok::<ItemView, Fault>(item@) && *final(self) == *old(self),
                    Err(err) => expected is Err && final(self).reports(old(self), err, expected->Err_0),
                }
            }),
    {
        let marker = line[eq_idx - 1].text;
        if same_text(marker, "+") {
            self.parse_separate(line, eq_idx, Operation::PlusEqual, eq_idx + 1)
        } else if has_last_char(marker, '+') {
            self.parse_joined(line, eq_idx, Operation::PlusEqual)
        } else if same_text(marker, "-") {
            if line.len() - eq_idx <= 2 {
                Err(self.fail(ErrorType::ExpectedRightSide, line[eq_idx]))
            } else {
                self.parse_separate(line, eq_idx, Operation::MinusEqual, eq_idx + 2)
            }
        } else if has_last_char(marker, '-') {
            self.parse_joined(line, eq_idx, Operation::MinusEqual)
        } else {
            let value = copy_range(line, eq_idx + 1, line.len());
            Ok(Item::Decl { name: line[0], value })
        }
    }

    /// The index of the line that closes the conditional block whose lines
    /// start at `from`, or the number of lines if none does.
    fn find_closing(&self, from: usize) -> (end: usize)
        requires
            from <= self.input().len(),
        ensures
            from <= end <= self.input().len(),
            closing(self.input(), from as int) == (if end < self.input().len() {
                Some(end as int)
            } else {
                None
            }),
    {
        let lines = self.lines;
        let mut end: usize = from;
        while end < lines.len()
            invariant
                from <= end <= lines.len(),
                lines == self.lines,
                closing(self.input(), from as int) == closing(self.input(), end as int),
            decreases lines.len() - end,
        {
            let line = &lines[end].1;
            if !contains_text(line, "else") && contains_text(line, "endif") {
                return end;
            }
            end += 1;
        }
        end
    }

    /// Parses the conditional block that opens on the line at the cursor,
    /// and moves the cursor behind its closing line.
    fn parse_conditional(&mut self) -> (result: Result<Item<'a>, Error>)
        requires
            0 <= old(self).cursor() < old(self).input().len(),
            old(self).input()[old(self).cursor()].tokens.len() > 0,
        ensures
            ({
                let expected = conditional(old(self).input(), old(self).cursor());
                match result {
                    Ok(item) => {
                        &&& expected is Ok
                        &&& expected->Ok_0.item == Some(item@)
                        &&& final(self).cursor() == old(self).cursor() + 1 + expected->Ok_0.extra
                        &&& final(self).input() == old(self).input()
                        &&& final(self).offender() == old(self).offender()
                    },
                    Err(err) => expected is Err && final(self).reports(old(self), err, expected->Err_0),
                }
            }),
    {
        let lines = self.lines;
        let pos = self.pos;
        let first = lines[pos].1[0];
        let count = lines.len();
        let end = self.find_closing(pos + 1);
        if end >= count {
            return Err(self.fail(ErrorType::NoClosingEndif, first));
        }
        let ghost input = self.input();
        let ghost mut middle: int = end as int;
        let mut then_body: Vec<Item<'a>> = Vec::new();
        let mut else_body: Vec<Item<'a>> = Vec::new();
        let mut else_flag = false;
        let mut i: usize = pos + 1;
        while i < end
            invariant
                pos + 1 <= i <= end < lines.len(),
                lines == self.lines,
                input == self.input(),
                input.len() == lines@.len(),
                *self == *old(self),
                pos as int == self.cursor(),
                closing(input, pos + 1) == Some(end as int),
                !else_flag ==> {
                    &&& else_line(input, pos + 1, end as int) == else_line(input, i as int, end as int)
                    &&& branch(input, pos + 1, i as int) == Ok::<Seq<ItemView>, Fault>(
                        items_view(then_body@),
                    )
                    &&& else_body@.len() == 0
                },
                else_flag ==> {
                    &&& middle == else_line(input, pos + 1, end as int)
                    &&& pos + 1 <= middle < i
                    &&& branch(input, pos + 1, middle) == Ok::<Seq<ItemView>, Fault>(items_view(then_body@))
                    &&& branch(input, middle + 1, i as int) == Ok::<Seq<ItemView>, Fault>(
                        items_view(else_body@),
                    )
                },
            decreases end - i,
        {
            let line = &lines[i].1;
            let ghost from: int = if else_flag {
                middle + 1
            } else {
                pos + 1
            };
            if contains_text(line, "else") {
                if !else_flag {
                    proof {
                        middle = i as int;
                    }
                }
                else_flag = true;
            } else {
                match find_type(line, TokenType::Equal) {
                    Some(eq_idx) => {
                        if eq_idx > 0 {
                            match self.parse_eq(line, eq_idx) {
                                Ok(item) => {
                                    proof {
                                        if else_flag {
                                            lemma_items_view_push(else_body@, item);
                                        } else {
                                            lemma_items_view_push(then_body@, item);
                                        }
                                    }
                                    if else_flag {
                                        else_body.push(item);
                                    } else {
                                        then_body.push(item);
                                    }
                                },
                                Err(err) => {
                                    proof {
                                        if else_flag {
                                            lemma_branch_fault(input, from, i + 1, end as int);
                                        } else {
                                            lemma_else_line_bounds(input, i + 1, end as int);
                                            lemma_branch_fault(
                                                input,
                                                from,
                                                i + 1,
                                                else_line(input, pos + 1, end as int),
                                            );
                                        }
                                    }
                                    return Err(err);
                                },
                            }
                        }
                    },
                    None => {},
                }
            }
            i += 1;
        }
        if lines[pos].1.len() < 2 {
            return Err(self.fail(ErrorType::IfWithoutLeftSide, first));
        }
        if lines[pos].1.len() < 3 {
            return Err(self.fail(ErrorType::IfWithoutRightSide, first));
        }
        self.pos = end + 1;
        Ok(
            Item::If {
                negate: same_text(first.text, "ifneq"),
                left: lines[pos].1[1],
                right: lines[pos].1[2],
                then_body,
                else_body,
            },
        )
    }

    /// Parses the job rule on the line at the cursor, whose first `:` stands
    /// at index `colon_idx`, and moves the cursor behind the rule's body.
    fn parse_rule(&mut self, colon_idx: usize) -> (result: Result<Item<'a>, Error>)
        requires
            0 <= old(self).cursor() < old(self).input().len(),
            0 < colon_idx < old(self).input()[old(self).cursor()].tokens.len(),
        ensures
            ({
                let expected = rule(old(self).input(), old(self).cursor(), colon_idx as int);
                match result {
                    Ok(item) => {
                        &&& expected is Ok
                        &&& expected->Ok_0.item == Some(item@)
                        &&& final(self).cursor() == old(self).cursor() + 1 + expected->Ok_0.extra
                        &&& final(self).input() == old(self).input()
                        &&& final(self).offender() == old(self).offender()
                    },
                    Err(err) => expected is Err && final(self).reports(old(self), err, expected->Err_0),
                }
            }),
    {
        let lines = self.lines;
        let pos = self.pos;
        let line = &lines[pos].1;
        let target = line[0];
        match self.check_token_pos(colon_idx, Some(target)) {
            Err(err) => {
                return Err(err);
            },
            Ok(_) => {},
        }
        let dependencies = copy_range(line, colon_idx + 1, line.len());
        let ghost input = self.input();
        assert(pos < lines.len());
        let mut body: Vec<Vec<Token<'a>>> = Vec::new();
        let mut i: usize = pos + 1;
        while i < lines.len() && lines[i].0 != 0
            invariant
                pos + 1 <= i <= lines.len(),
                lines == self.lines,
                input == self.input(),
                input.len() == lines@.len(),
                body_end(input, pos + 1) == body_end(input, i as int),
                body_view(body@) == body_lines(input, pos + 1, i as int),
            decreases lines.len() - i,
        {
            let copy = copy_range(&lines[i].1, 0, lines[i].1.len());
            body.push(copy);
            proof {
                assert(lines@[i as int].1@.subrange(0, lines@[i as int].1@.len() as int) =~= lines@[i as int].1@);
                assert(body_lines(input, pos + 1, i + 1) =~= body_lines(input, pos + 1, i as int).push(
                    input[i as int].tokens,
                ));
            }
            i += 1;
        }
        self.pos = i;
        Ok(Item::Job { target, dependencies, body })
    }

    /// Parses what stands on the line at the cursor, and moves the cursor
    /// behind it: behind the line, or behind the last line of the block or
    /// the body that the line opens.
    pub fn parse_line(&mut self) -> (result: Result<Option<Item<'a>>, Error>)
        requires
            0 <= old(self).cursor() < old(self).input().len(),
        ensures
            ({
                let expected = construct(old(self).input(), old(self).cursor());
                match result {
                    Ok(item) => {
                        &&& expected is Ok
                        &&& expected->Ok_0.item == item_option_view(item)
                        &&& final(self).cursor() == old(self).cursor() + 1 + expected->Ok_0.extra
                        &&& final(self).cursor() <= final(self).input().len()
                        &&& final(self).input() == old(self).input()
                        &&& final(self).offender() == old(self).offender()
                    },
                    Err(err) => expected is Err && final(self).reports(old(self), err, expected->Err_0),
                }
            }),
    {
        let lines = self.lines;
        let pos = self.pos;
        assert(pos < lines.len());
        let line = &lines[pos].1;
        if line.len() == 0 {
            self.pos = pos + 1;
            return Ok(None);
        }
        let first = line[0];
        if same_text(first.text, "endif") {
            self.pos = pos + 1;
            return Ok(None);
        }
        match first.typ {
            TokenType::Literal => {
                if same_text(first.text, "ifeq") || same_text(first.text, "ifneq") {
                    proof {
                        lemma_closing_bounds(self.input(), pos + 1);
                    }
                    match self.parse_conditional() {
                        Ok(item) => Ok(Some(item)),
                        Err(err) => Err(err),
                    }
                } else {
                    match find_type(line, TokenType::Equal) {
                        Some(eq_idx) => {
                            match self.parse_eq(line, eq_idx) {
                                Ok(item) => {
                                    self.pos = pos + 1;
                                    Ok(Some(item))
                                },
                                Err(err) => Err(err),
                            }
                        },
                        None => match find_type(line, TokenType::Colon) {
                            Some(colon_idx) => {
                                proof {
                                    lemma_body_end(self.input(), pos + 1);
                                }
                                match self.parse_rule(colon_idx) {
                                    Ok(item) => Ok(Some(item)),
                                    Err(err) => Err(err),
                                }
                            },
                            None => Err(self.uft_err(line)),
                        },
                    }
                }
            },
            TokenType::Colon => Err(self.fail(ErrorType::JobWithoutTarget, first)),
            _ => Err(self.uft_err(line)),
        }
    }

    /// Parses the lines from the cursor to the end of the input.
    ///
    /// The tree holds the items in source order. The first fault ends the
    /// parse: the error carries its classification, the offending token is
    /// recorded, and the cursor stays on the line where the faulty construct
    /// begins.
    pub fn parse(&mut self) -> (result: Result<Ast<'a>, Error>)
        ensures
            final(self).input() == old(self).input(),
            final(self).cursor() == stop(old(self).input(), old(self).cursor()),
            ({
                let expected = items_from(old(self).input(), old(self).cursor());
                match result {
                    Ok(ast) => expected == Ok::<Seq<ItemView>, Fault>(ast@) && final(self).offender() == old(
                        self,
                    ).offender(),
                    Err(err) => {
                        &&& expected is Err
                        &&& err.ty == expected->Err_0.ty
                        &&& err.note == note_of(expected->Err_0.ty)
                        &&& final(self).offender() == Some(expected->Err_0.at)
                    },
                }
            }),
    {
        let lines = self.lines;
        let ghost input = self.input();
        let ghost start = self.cursor();
        let mut items: Vec<Item<'a>> = Vec::new();
        while self.pos < lines.len()
            invariant
                input == self.input(),
                input == old(self).input(),
                start == old(self).cursor(),
                input.len() == lines@.len(),
                self.offender() == old(self).offender(),
                0 <= self.cursor(),
                stop(input, start) == stop(input, self.cursor()),
                items_from(input, start) == prepend(items_view(items@), items_from(input, self.cursor())),
            decreases lines.len() - self.pos,
        {
            match self.parse_line() {
                Ok(found) => {
                    match found {
                        Some(item) => {
                            proof {
                                lemma_items_view_push(items@, item);
                                let rest = items_from(input, self.cursor());
                                if rest is Ok {
                                    assert(items_view(items@) + (seq![item@] + rest->Ok_0) =~= items_view(
                                        items@,
                                    ).push(item@) + rest->Ok_0);
                                }
                            }
                            items.push(item);
                        },
                        None => {},
                    }
                },
                Err(err) => {
                    return Err(err);
                },
            }
        }
        Ok(Ast { items })
    }
}

/// The items `prefix` followed by the outcome of the rest of the parse.
spec fn prepend(prefix: Seq<ItemView>, rest: Result<Seq<ItemView>, Fault>) -> Result<
    Seq<ItemView>,
    Fault,
> {
    match rest {
        Ok(items) => Ok(prefix + items),
        Err(fault) => Err(fault),
    }
}

} // verus!

//! Messages that point at a place in the source: the location, the
//! enclosing function or contract, the offending source lines, and a marker
//! under the offending column.
use vstd::prelude::*;
use vstd::string::*;
use vstd::utf8::*;

use crate::ast_type::ASTType;
use crate::node_kind::{spec_is_instance, is_instance, AstShape};
use crate::text::{decimal, expand_tabs, push_char, push_decimal, push_expanding_tabs};
use crate::tree::{
    is_ancestor, lemma_ancestor_antisymmetric, lemma_ancestor_basics, lemma_ancestor_transitive,
    lemma_rank_bounds, max_rank, AstArena, NodeView, tree_wf,
};
use crate::node_kind::kind_valid;

verus! {

/// The characters of the first `k` bytes of the UTF-8 encoding of `s`.
pub open spec fn byte_prefix(s: Seq<char>, k: int) -> Seq<char> {
    decode_utf8(encode_utf8(s).subrange(0, k))
}

/// The marker under the characters before the offending column: four
/// dashes under a tab, one under any other character.
pub open spec fn column_marker(prefix: Seq<char>) -> Seq<char>
    decreases prefix.len(),
{
    if prefix.len() == 0 {
        Seq::empty()
    } else if prefix.last() == '\t' {
        column_marker(prefix.drop_last()) + seq!['-', '-', '-', '-']
    } else {
        column_marker(prefix.drop_last()).push('-')
    }
}

/// Source lines `from` to `to` (counted from 1), tabs expanded, each
/// followed by a space.
pub open spec fn source_lines(code: Seq<Seq<char>>, from: int, to: int) -> Seq<char>
    decreases to - from + 1,
{
    if from > to {
        Seq::empty()
    } else {
        source_lines(code, from, to - 1) + expand_tabs(code[to - 1]) + seq![' ']
    }
}

/// "At line: <line>;<column>".
pub open spec fn location_text(line: i32, column: i32) -> Seq<char> {
    "At line: "@ + decimal(line as int) + ";"@ + decimal(column as int)
}

/// The line where the quoted source starts: that of the statement, if one is
/// given, else the offending line itself.
pub open spec fn quote_start(v: Seq<NodeView>, line: i32, stmt: Option<usize>) -> i32 {
    match stmt {
        Some(s) => v[s as int].line,
        None => line,
    }
}

/// The location is inside the source text.
pub open spec fn location_in_code(line: i32, column: i32, code: Seq<Seq<char>>) -> bool {
    line > 0 && column > 0 && line <= (code.len() as i32)
}

/// The inputs on which `get_code_error_msg` runs to the end: a function is
/// only given together with a contract, and when source lines are quoted
/// they exist and the offending column falls on a character boundary of the
/// offending line.
pub open spec fn code_error_msg_ok(
    v: Seq<NodeView>,
    line: i32,
    column: i32,
    code: Seq<Seq<char>>,
    ctr: Option<usize>,
    fct: Option<usize>,
    stmt: Option<usize>,
) -> bool {
    &&& stmt matches Some(s) ==> s < v.len()
    &&& location_in_code(line, column, code) ==> {
        &&& fct is Some ==> ctr is Some
        &&& quote_start(v, line, stmt) != -1 ==> {
            let start = quote_start(v, line, stmt);
            let bytes = encode_utf8(code[line - 1]);
            &&& start >= 1 || start > line
            &&& line < i32::MAX
            &&& column - 1 <= bytes.len()
            &&& is_char_boundary(bytes, column - 1)
        }
    }
}

/// What a message says of the enclosing function or contract, if any.
pub open spec fn context_text(ctr: Option<usize>, fct: Option<usize>) -> Seq<char> {
    if fct is Some {
        ", in function \"{fct.name}\" of contract \"{ctr.idf.name}\""@
    } else if ctr is Some {
        ", in contract \"{ctr.idf.name}\""@
    } else {
        Seq::empty()
    }
}

/// Source line `k` (counted from 1) as it is quoted: tabs expanded,
/// followed by a space.
pub open spec fn quoted_line(code: Seq<Seq<char>>, k: int) -> Seq<char> {
    expand_tabs(code[k - 1]) + seq![' ']
}

/// The quoted lines `from` to `to`, one after the other.
pub open spec fn quoted_lines(code: Seq<Seq<char>>, from: int, to: int) -> Seq<char> {
    Seq::new(if from <= to { (to - from + 1) as nat } else { 0 }, |j: int| quoted_line(code, from + j)).flatten()
}

/// Quoting lines `from` to `to` quotes each of them, in order: line `from`
/// first, then every following one up to line `to`, none left out.
pub proof fn lemma_source_lines_quote_each_line(code: Seq<Seq<char>>, from: int, to: int)
    ensures
        source_lines(code, from, to) == quoted_lines(code, from, to),
    decreases to - from + 1,
{
    let n: nat = if from <= to { (to - from + 1) as nat } else { 0 };
    let lines = Seq::new(n, |j: int| quoted_line(code, from + j));
    if from > to {
        assert(lines =~= Seq::<Seq<char>>::empty());
        assert(source_lines(code, from, to) =~= quoted_lines(code, from, to));
    } else {
        lemma_source_lines_quote_each_line(code, from, to - 1);
        let m: nat = if from <= to - 1 { (to - 1 - from + 1) as nat } else { 0 };
        let shorter = Seq::new(m, |j: int| quoted_line(code, from + j));
        assert(lines =~= shorter.push(quoted_line(code, to)));
        shorter.lemma_flatten_push(quoted_line(code, to));
        assert(source_lines(code, from, to) =~= source_lines(code, from, to - 1) + quoted_line(
            code,
            to,
        ));
    }
}

/// The message `get_code_error_msg` builds.
pub open spec fn spec_code_error_msg(
    v: Seq<NodeView>,
    line: i32,
    column: i32,
    code: Seq<Seq<char>>,
    ctr: Option<usize>,
    fct: Option<usize>,
    stmt: Option<usize>,
) -> Seq<char> {
    let loc = location_text(line, column);
    if !location_in_code(line, column, code) {
        loc
    } else {
        let head = loc + context_text(ctr, fct) + " "@;
        let start = quote_start(v, line, stmt);
        if start != -1 {
            head + source_lines(code, start as int, line as int) + column_marker(
                byte_prefix(code[line - 1], column - 1),
            ) + "/"@
        } else {
            head
        }
    }
}

/// A message about a location inside the source text is the location, what
/// it says of the enclosing function or contract, a space, every source line
/// from the quoted start line to the offending line (each quoted in turn,
/// none left out; none when the start line lies below the offending one),
/// the marker under the offending column, and a closing slash.
pub proof fn lemma_code_error_msg_quotes_lines(
    v: Seq<NodeView>,
    line: i32,
    column: i32,
    code: Seq<Seq<char>>,
    ctr: Option<usize>,
    fct: Option<usize>,
    stmt: Option<usize>,
)
    requires
        location_in_code(line, column, code),
        quote_start(v, line, stmt) != -1,
    ensures
        ({
            let start = quote_start(v, line, stmt) as int;
            spec_code_error_msg(v, line, column, code, ctr, fct, stmt) == location_text(line, column)
                + context_text(ctr, fct) + " "@ + quoted_lines(code, start, line as int)
                + column_marker(byte_prefix(code[line - 1], column - 1)) + "/"@
        }),
{
    lemma_source_lines_quote_each_line(code, quote_start(v, line, stmt) as int, line as int);
}

/// Every message begins with the location, and a location outside the
/// source text is described by the location alone.
pub proof fn lemma_code_error_msg_starts_with_location(
    v: Seq<NodeView>,
    line: i32,
    column: i32,
    code: Seq<Seq<char>>,
    ctr: Option<usize>,
    fct: Option<usize>,
    stmt: Option<usize>,
)
    ensures
        ({
            let m = spec_code_error_msg(v, line, column, code, ctr, fct, stmt);
            let loc = location_text(line, column);
            &&& loc.len() <= m.len()
            &&& m.subrange(0, loc.len() as int) == loc
        }),
        !location_in_code(line, column, code) ==> spec_code_error_msg(
            v,
            line,
            column,
            code,
            ctr,
            fct,
            stmt,
        ) == location_text(line, column),
{
    let m = spec_code_error_msg(v, line, column, code, ctr, fct, stmt);
    let loc = location_text(line, column);
    if location_in_code(line, column, code) {
        let rest = m.subrange(loc.len() as int, m.len() as int);
        assert(m =~= loc + rest);
    }
    assert(m.subrange(0, loc.len() as int) =~= loc);
}

/// The marker is made of dashes only and is exactly as wide as the text
/// before the offending column once its tabs are expanded, so that it ends
/// under that column of the quoted line.
pub proof fn lemma_column_marker_width(prefix: Seq<char>)
    ensures
        column_marker(prefix).len() == expand_tabs(prefix).len(),
        forall|k: int| 0 <= k < column_marker(prefix).len() ==> #[trigger] column_marker(prefix)[k] == '-',
    decreases prefix.len(),
{
    if prefix.len() > 0 {
        lemma_column_marker_width(prefix.drop_last());
        let m0 = column_marker(prefix.drop_last());
        let m = column_marker(prefix);
        assert forall|k: int| 0 <= k < m.len() implies #[trigger] m[k] == '-' by {
            if k < m0.len() {
                assert(m[k] == m0[k]);
            }
        }
    }
}

fn push_column_marker(s: &mut String, prefix: &str)
    ensures
        final(s)@ == old(s)@ + column_marker(prefix@),
{
    let n = prefix.unicode_len();
    let mut i: usize = 0;
    while i < n
        invariant
            n == prefix@.len(),
            i <= n,
            s@ == old(s)@ + column_marker(prefix@.subrange(0, i as int)),
        decreases n - i,
    {
        let c = prefix.get_char(i);
        if c == '\t' {
            push_char(s, '-');
            push_char(s, '-');
            push_char(s, '-');
            push_char(s, '-');
        } else {
            push_char(s, '-');
        }
        assert(prefix@.subrange(0, i + 1).drop_last() =~= prefix@.subrange(0, i as int));
        assert(s@ =~= old(s)@ + column_marker(prefix@.subrange(0, i + 1)));
        i = i + 1;
    }
    assert(prefix@.subrange(0, n as int) =~= prefix@);
}

/// Describes a location in the source: "At line: L;C", then, when the
/// location lies inside `code`, the enclosing function or contract, the
/// source lines from the start of the statement `stmt` (or from the
/// offending line) to the offending line, and a marker that ends under the
/// offending column. The function and contract are mentioned by the fixed
/// placeholders `{fct.name}` and `{ctr.idf.name}`, not by their names.
pub fn get_code_error_msg(
    arena: &AstArena,
    line: i32,
    column: i32,
    code: &Vec<String>,
    ctr: Option<usize>,
    fct: Option<usize>,
    stmt: Option<usize>,
) -> (r: String)
    requires
        arena.wf(),
        code_error_msg_ok(arena@, line, column, code@.map_values(|s: String| s@), ctr, fct, stmt),
    ensures
        r@ == spec_code_error_msg(
            arena@,
            line,
            column,
            code@.map_values(|s: String| s@),
            ctr,
            fct,
            stmt,
        ),
{
    let ghost lines = code@.map_values(|s: String| s@);
    let mut error_msg = String::new();
    error_msg.append("At line: ");
    push_decimal(&mut error_msg, line);
    error_msg.append(";");
    push_decimal(&mut error_msg, column);
    assert(error_msg@ =~= location_text(line, column));
    if line <= 0 || column <= 0 || line > #[verifier::truncate] (code.len() as i32) {
        return error_msg;
    }
    if fct.is_some() {
        error_msg.append(", in function \"{fct.name}\" of contract \"{ctr.idf.name}\"");
    } else if ctr.is_some() {
        error_msg.append(", in contract \"{ctr.idf.name}\"");
    }
    error_msg.append(" ");
    let start_line = match stmt {
        Some(s) => arena.line(s),
        None => line,
    };
    if start_line != -1 {
        let ghost head = error_msg@;
        let mut l = start_line;
        if start_line <= line {
            while l <= line
                invariant
                    start_line <= l <= line + 1,
                    1 <= start_line,
                    line < i32::MAX,
                    line <= code@.len(),
                    lines == code@.map_values(|s: String| s@),
                    error_msg@ == head + source_lines(lines, start_line as int, l - 1),
                decreases line + 1 - l,
            {
                push_expanding_tabs(&mut error_msg, code[(l - 1) as usize].as_str());
                push_char(&mut error_msg, ' ');
                assert(error_msg@ =~= head + source_lines(lines, start_line as int, l as int));
                l = l + 1;
            }
        }
        assert(error_msg@ == head + source_lines(lines, start_line as int, line as int));
        let affected = code[(line - 1) as usize].as_str();
        proof {
            assert(lines[line - 1] == affected@);
        }
        let (prefix, _rest) = affected.split_at((column - 1) as usize);
        proof {
            broadcast use encode_utf8_decode_utf8;

            assert(prefix.spec_bytes() == encode_utf8(prefix@));
            assert(decode_utf8(encode_utf8(prefix@)) == prefix@);
            assert(prefix@ == byte_prefix(lines[line - 1], column - 1));
        }
        push_column_marker(&mut error_msg, prefix);
        error_msg.append("/");
        error_msg
    } else {
        error_msg
    }
}

/// The nearest node at or above `n` whose kind is an instance of `t`, or the
/// topmost node above `n` when there is none.
pub open spec fn enclosing_or_top(v: Seq<NodeView>, n: int, t: ASTType) -> int
    decreases max_rank(v) - v[n].rank,
{
    if !(0 <= n < v.len()) || spec_is_instance(v[n].kind, t) {
        n
    } else {
        match v[n].parent {
            Some(p) => if p < v.len() && v[n].rank < v[p as int].rank <= max_rank(v) {
                enclosing_or_top(v, p as int, t)
            } else {
                n
            },
            None => n,
        }
    }
}

/// The nearest node at or above `n` whose kind is an instance of `t`, if any.
pub open spec fn enclosing(v: Seq<NodeView>, n: int, t: ASTType) -> Option<int>
    decreases max_rank(v) - v[n].rank,
{
    if !(0 <= n < v.len()) {
        None
    } else if spec_is_instance(v[n].kind, t) {
        Some(n)
    } else {
        match v[n].parent {
            Some(p) => if p < v.len() && v[n].rank < v[p as int].rank <= max_rank(v) {
                enclosing(v, p as int, t)
            } else {
                None
            },
            None => None,
        }
    }
}

/// The search for an enclosing node finds the nearest one: what it finds is
/// `n` or an ancestor of `n` of the kind searched for, and no node between
/// `n` and it is of that kind; when it finds none, no ancestor of `n` (nor
/// `n`) is of that kind. The search that falls back to the topmost node
/// ends at the node found, if any, and otherwise at an ancestor of `n`
/// without parent.
pub proof fn lemma_enclosing_is_nearest(v: Seq<NodeView>, n: int, t: ASTType)
    requires
        tree_wf(v),
        0 <= n < v.len(),
    ensures
        enclosing(v, n, t) matches Some(x) ==> {
            &&& is_ancestor(v, x, n)
            &&& spec_is_instance(v[x].kind, t)
            &&& forall|y: int|
                #[trigger] is_ancestor(v, y, n) && y != x && is_ancestor(v, x, y)
                    ==> !spec_is_instance(v[y].kind, t)
        },
        enclosing(v, n, t) is None ==> forall|y: int|
            #[trigger] is_ancestor(v, y, n) ==> !spec_is_instance(v[y].kind, t),
        is_ancestor(v, enclosing_or_top(v, n, t), n),
        enclosing(v, n, t) matches Some(x) ==> enclosing_or_top(v, n, t) == x,
        enclosing(v, n, t) is None ==> v[enclosing_or_top(v, n, t)].parent is None,
    decreases max_rank(v) - v[n].rank,
{
    lemma_rank_bounds(v);
    lemma_ancestor_basics(v, n, n);
    if spec_is_instance(v[n].kind, t) {
        assert forall|y: int|
            #[trigger] is_ancestor(v, y, n) && y != n && is_ancestor(v, n, y) implies !spec_is_instance(
            v[y].kind,
            t,
        ) by {
            lemma_ancestor_basics(v, y, n);
            lemma_ancestor_antisymmetric(v, y, n);
        }
    } else {
        match v[n].parent {
            Some(p) => {
                let p = p as int;
                assert(v[n].rank < v[p].rank);
                lemma_enclosing_is_nearest(v, p, t);
                lemma_ancestor_basics(v, p, n);
                if let Some(x) = enclosing(v, n, t) {
                    lemma_ancestor_transitive(v, x, p, n);
                    assert forall|y: int|
                        #[trigger] is_ancestor(v, y, n) && y != x && is_ancestor(v, x, y)
                            implies !spec_is_instance(v[y].kind, t) by {
                        if y != n {
                            assert(is_ancestor(v, y, p));
                        }
                    }
                } else {
                    assert forall|y: int| #[trigger] is_ancestor(v, y, n) implies !spec_is_instance(
                        v[y].kind,
                        t,
                    ) by {
                        if y != n {
                            assert(is_ancestor(v, y, p));
                        }
                    }
                }
                lemma_ancestor_transitive(v, enclosing_or_top(v, p, t), p, n);
            },
            None => {
                assert forall|y: int| #[trigger] is_ancestor(v, y, n) implies !spec_is_instance(
                    v[y].kind,
                    t,
                ) by {
                    assert(y == n);
                }
            },
        }
    }
}

/// The statement a message about `ast` quotes: the statement recorded for an
/// expression (when that node is a statement), or `ast` itself when it is a statement.
pub open spec fn exception_statement(v: Seq<NodeView>, ast: int) -> Option<usize> {
    match v[ast].kind.shape {
        AstShape::Expression(_) => match v[ast].statement {
            Some(s) => if v[s as int].kind.shape is Statement {
                Some(s)
            } else {
                None
            },
            None => None,
        },
        AstShape::Statement(_) => Some(ast as usize),
        _ => None,
    }
}

/// The function a message about `ast` names: the one recorded for its
/// statement, or `ast` itself when it is a function definition.
pub open spec fn exception_function(v: Seq<NodeView>, ast: int) -> Option<usize> {
    match exception_statement(v, ast) {
        Some(s) => v[s as int].function,
        None => if spec_is_instance(v[ast].kind, ASTType::ConstructorOrFunctionDefinition) {
            Some(ast as usize)
        } else {
            None
        },
    }
}

/// The node searched for the enclosing contract: the nearest contract at or
/// above the function (or `ast`), or the topmost node when there is none.
pub open spec fn exception_contract(v: Seq<NodeView>, ast: int) -> int {
    let from = match exception_function(v, ast) {
        Some(f) => f as int,
        None => ast,
    };
    enclosing_or_top(v, from, ASTType::ContractDefinition)
}

/// The source unit whose text the message quotes, if any encloses the contract node.
pub open spec fn exception_root(v: Seq<NodeView>, ast: int) -> Option<int> {
    enclosing(v, exception_contract(v, ast), ASTType::SourceUnit)
}

/// The contract the message names, if the contract node is one.
pub open spec fn exception_contract_arg(v: Seq<NodeView>, ast: int) -> Option<usize> {
    let c = exception_contract(v, ast);
    if spec_is_instance(v[c].kind, ASTType::ContractDefinition) {
        Some(c as usize)
    } else {
        None
    }
}

/// The inputs on which `get_ast_exception_msg` runs to the end: a quoted
/// statement has a recorded function definition, and when a source unit
/// encloses the node, the contract node is a namespace definition and the
/// location can be described.
pub open spec fn ast_exception_msg_ok(v: Seq<NodeView>, ast: int) -> bool {
    &&& exception_statement(v, ast) matches Some(s) ==> (v[s as int].function matches Some(f)
        && spec_is_instance(v[f as int].kind, ASTType::ConstructorOrFunctionDefinition))
    &&& exception_root(v, ast) matches Some(r) ==> {
        &&& v[exception_contract(v, ast)].kind.shape is NamespaceDefinition
        &&& code_error_msg_ok(
            v,
            v[ast].line,
            v[ast].column,
            v[r].original_code,
            exception_contract_arg(v, ast),
            exception_function(v, ast),
            exception_statement(v, ast),
        )
    }
}

/// The message about `ast`: its location described against the enclosing
/// source unit ("error" when there is none), followed by `msg`.
pub open spec fn spec_ast_exception_msg(v: Seq<NodeView>, ast: int, msg: Seq<char>) -> Seq<char> {
    let error_msg = match exception_root(v, ast) {
        Some(r) => spec_code_error_msg(
            v,
            v[ast].line,
            v[ast].column,
            v[r].original_code,
            exception_contract_arg(v, ast),
            exception_function(v, ast),
            exception_statement(v, ast),
        ),
        None => "error"@,
    };
    " "@ + error_msg + "  "@ + msg
}

/// A message about a function definition names that function: the node is
/// its own enclosing function (no statement is quoted), the contract is
/// searched for from it, and whenever a source unit encloses it and its
/// location lies inside the source text, the message begins with the
/// location followed by ", in function ... of contract ...". When its parent
/// is a contract, that contract is the one named, and when the contract's
/// parent is a source unit, that unit's text is quoted.
pub proof fn lemma_function_definition_message(v: Seq<NodeView>, ast: int, msg: Seq<char>)
    requires
        tree_wf(v),
        0 <= ast < v.len(),
        spec_is_instance(v[ast].kind, ASTType::ConstructorOrFunctionDefinition),
    ensures
        exception_statement(v, ast) is None,
        exception_function(v, ast) == Some(ast as usize),
        exception_contract(v, ast) == enclosing_or_top(v, ast, ASTType::ContractDefinition),
        exception_root(v, ast) matches Some(r) && location_in_code(
            v[ast].line,
            v[ast].column,
            v[r].original_code,
        ) ==> {
            let m = spec_ast_exception_msg(v, ast, msg);
            let pre = " "@ + location_text(v[ast].line, v[ast].column)
                + ", in function \"{fct.name}\" of contract \"{ctr.idf.name}\""@;
            &&& pre.len() <= m.len()
            &&& m.subrange(0, pre.len() as int) == pre
        },
        v[ast].parent matches Some(c) ==> (v[c as int].kind.ast_type == ASTType::ContractDefinition
            ==> {
            &&& exception_contract(v, ast) == c as int
            &&& exception_contract_arg(v, ast) == Some(c)
            &&& (v[c as int].parent matches Some(su) ==> (v[su as int].kind.ast_type
                == ASTType::SourceUnit ==> exception_root(v, ast) == Some(su as int)))
        }),
{
    assert(kind_valid(v[ast].kind));
    assert(v[ast].kind.shape == AstShape::NamespaceDefinition);
    lemma_rank_bounds(v);
    if let Some(c) = v[ast].parent {
        if v[c as int].kind.ast_type == ASTType::ContractDefinition {
            assert(v[ast].rank < v[c as int].rank);
            assert(enclosing_or_top(v, c as int, ASTType::ContractDefinition) == c as int);
            assert(exception_contract(v, ast) == c as int);
            if let Some(su) = v[c as int].parent {
                if v[su as int].kind.ast_type == ASTType::SourceUnit {
                    assert(v[c as int].rank < v[su as int].rank);
                    assert(enclosing(v, su as int, ASTType::SourceUnit) == Some(su as int));
                    assert(exception_root(v, ast) == Some(su as int));
                }
            }
        }
    }
    if let Some(r) = exception_root(v, ast) {
        let line = v[ast].line;
        let column = v[ast].column;
        if location_in_code(line, column, v[r].original_code) {
            let ctr = exception_contract_arg(v, ast);
            let inner = spec_code_error_msg(
                v,
                line,
                column,
                v[r].original_code,
                ctr,
                Some(ast as usize),
                None,
            );
            let pre0 = location_text(line, column) + context_text(ctr, Some(ast as usize));
            let rest = inner.subrange(pre0.len() as int, inner.len() as int);
            assert(inner =~= pre0 + rest);
            let m = spec_ast_exception_msg(v, ast, msg);
            assert(m =~= " "@ + pre0 + rest + "  "@ + msg);
            let pre = " "@ + location_text(line, column)
                + ", in function \"{fct.name}\" of contract \"{ctr.idf.name}\""@;
            assert(pre =~= " "@ + pre0);
            assert(m.subrange(0, pre.len() as int) =~= pre);
        }
    }
}

/// A message about a statement quotes exactly the statement's own line and
/// names the function recorded for it; a message about an expression whose
/// recorded statement is a statement quotes every line from that
/// statement's line down to the expression's, and names the function
/// recorded for that statement.
pub proof fn lemma_statement_message(v: Seq<NodeView>, ast: int, msg: Seq<char>)
    requires
        tree_wf(v),
        0 <= ast < v.len(),
    ensures
        exception_root(v, ast) matches Some(r) ==> ({
            let line = v[ast].line;
            let column = v[ast].column;
            let code = v[r].original_code;
            let tail = column_marker(byte_prefix(code[line - 1], column - 1)) + "/"@ + "  "@ + msg;
            let head = " "@ + location_text(line, column);
            &&& (location_in_code(line, column, code) && v[ast].kind.shape is Statement) ==> {
                &&& exception_statement(v, ast) == Some(ast as usize)
                &&& spec_ast_exception_msg(v, ast, msg) == head + context_text(
                    exception_contract_arg(v, ast),
                    v[ast].function,
                ) + " "@ + quoted_line(code, line as int) + tail
            }
            &&& (location_in_code(line, column, code) && v[ast].kind.shape is Expression)
                ==> (v[ast].statement matches Some(s) ==> (v[s as int].kind.shape is Statement
                && v[s as int].line != -1 ==> {
                &&& exception_statement(v, ast) == Some(s)
                &&& spec_ast_exception_msg(v, ast, msg) == head + context_text(
                    exception_contract_arg(v, ast),
                    v[s as int].function,
                ) + " "@ + quoted_lines(code, v[s as int].line as int, line as int) + tail
            }))
        }),
{
    if let Some(r) = exception_root(v, ast) {
        let line = v[ast].line;
        let column = v[ast].column;
        let code = v[r].original_code;
        let stmt = exception_statement(v, ast);
        if location_in_code(line, column, code) && quote_start(v, line, stmt) != -1 {
            lemma_code_error_msg_quotes_lines(
                v,
                line,
                column,
                code,
                exception_contract_arg(v, ast),
                exception_function(v, ast),
                stmt,
            );
            let q = Seq::new(1, |j: int| quoted_line(code, line as int + j));
            assert(q.len() == 1);
            q.lemma_flatten_one_element();
            assert(quoted_lines(code, line as int, line as int) == quoted_line(code, line as int));
            let m = spec_ast_exception_msg(v, ast, msg);
            let inner = spec_code_error_msg(
                v,
                line,
                column,
                code,
                exception_contract_arg(v, ast),
                exception_function(v, ast),
                stmt,
            );
            assert(m == " "@ + inner + "  "@ + msg);
            assert(m =~= " "@ + location_text(line, column) + context_text(
                exception_contract_arg(v, ast),
                exception_function(v, ast),
            ) + " "@ + quoted_lines(code, quote_start(v, line, stmt) as int, line as int)
                + column_marker(byte_prefix(code[line - 1], column - 1)) + "/"@ + "  "@ + msg);
        }
    }
}

fn find_enclosing_or_top(arena: &AstArena, n: usize, t: ASTType) -> (r: usize)
    requires
        arena.wf(),
        n < arena@.len(),
    ensures
        r == enclosing_or_top(arena@, n as int, t),
        r < arena@.len(),
{
    let ghost v = arena@;
    let mut e = n;
    while !is_instance(&arena.kind(e), t)
        invariant
            arena.wf(),
            v == arena@,
            e < v.len(),
            enclosing_or_top(v, e as int, t) == enclosing_or_top(v, n as int, t),
        decreases max_rank(v) - v[e as int].rank,
    {
        proof {
            lemma_rank_bounds(v);
        }
        match arena.parent(e) {
            Some(p) => {
                e = p;
            },
            None => {
                return e;
            },
        }
    }
    e
}

fn find_enclosing(arena: &AstArena, n: usize, t: ASTType) -> (r: Option<usize>)
    requires
        arena.wf(),
        n < arena@.len(),
    ensures
        r == (match enclosing(arena@, n as int, t) {
            Some(x) => Some(x as usize),
            None => None,
        }),
        r matches Some(x) ==> x < arena@.len() && enclosing(arena@, n as int, t) == Some(x as int),
{
    let ghost v = arena@;
    let mut e = n;
    while !is_instance(&arena.kind(e), t)
        invariant
            arena.wf(),
            v == arena@,
            e < v.len(),
            enclosing(v, e as int, t) == enclosing(v, n as int, t),
        decreases max_rank(v) - v[e as int].rank,
    {
        proof {
            lemma_rank_bounds(v);
        }
        match arena.parent(e) {
            Some(p) => {
                e = p;
            },
            None => {
                return None;
            },
        }
    }
    Some(e)
}

/// Whether `get_code_error_msg` runs to the end on these inputs: see
/// `code_error_msg_ok`.
pub fn code_error_msg_defined(
    arena: &AstArena,
    line: i32,
    column: i32,
    code: &Vec<String>,
    ctr: Option<usize>,
    fct: Option<usize>,
    stmt: Option<usize>,
) -> (r: bool)
    requires
        arena.wf(),
    ensures
        r == code_error_msg_ok(arena@, line, column, code@.map_values(|s: String| s@), ctr, fct, stmt),
{
    let ghost lines = code@.map_values(|s: String| s@);
    if let Some(s) = stmt {
        if s >= arena.len() {
            return false;
        }
    }
    if line <= 0 || column <= 0 || line > #[verifier::truncate] (code.len() as i32) {
        return true;
    }
    if fct.is_some() && ctr.is_none() {
        return false;
    }
    let start = match stmt {
        Some(s) => arena.line(s),
        None => line,
    };
    if start == -1 {
        return true;
    }
    if !(start >= 1 || start > line) || line == i32::MAX {
        return false;
    }
    let affected = code[(line - 1) as usize].as_str();
    proof {
        assert(lines[line - 1] == affected@);
    }
    let k = (column - 1) as usize;
    proof {
        broadcast use encode_utf8_valid_utf8;

        assert(valid_utf8(affected.spec_bytes()));
    }
    affected.is_char_boundary(k)
}

/// The statement, function, contract node and source unit that a message
/// about `ast` refers to.
fn exception_context(arena: &AstArena, ast: usize) -> (r: (Option<usize>, Option<usize>, usize, Option<usize>))
    requires
        arena.wf(),
        ast < arena@.len(),
    ensures
        r.0 == exception_statement(arena@, ast as int),
        r.1 == exception_function(arena@, ast as int),
        r.2 == exception_contract(arena@, ast as int),
        r.2 < arena@.len(),
        r.3 == (match exception_root(arena@, ast as int) {
            Some(x) => Some(x as usize),
            None => None,
        }),
        r.3 matches Some(x) ==> x < arena@.len() && exception_root(arena@, ast as int) == Some(x as int),
{
    let ghost v = arena@;
    let kind = arena.kind(ast);
    let stmt: Option<usize> = match kind.shape {
        AstShape::Expression(_) => match arena.statement(ast) {
            Some(s) => if matches!(arena.kind(s).shape, AstShape::Statement(_)) {
                Some(s)
            } else {
                None
            },
            None => None,
        },
        AstShape::Statement(_) => Some(ast),
        _ => None,
    };
    assert(stmt == exception_statement(v, ast as int));
    let fct: Option<usize> = match stmt {
        Some(s) => arena.function(s),
        None => if is_instance(&kind, ASTType::ConstructorOrFunctionDefinition) {
            Some(ast)
        } else {
            None
        },
    };
    assert(fct == exception_function(v, ast as int));
    let from = match fct {
        Some(f) => f,
        None => ast,
    };
    let ctr = find_enclosing_or_top(arena, from, ASTType::ContractDefinition);
    let root = find_enclosing(arena, ctr, ASTType::SourceUnit);
    (stmt, fct, ctr, root)
}

/// Whether `get_ast_exception_msg` runs to the end for `ast`: see
/// `ast_exception_msg_ok`.
pub fn ast_exception_msg_defined(arena: &AstArena, ast: usize) -> (r: bool)
    requires
        arena.wf(),
        ast < arena@.len(),
    ensures
        r == ast_exception_msg_ok(arena@, ast as int),
{
    let (stmt, fct, ctr, root) = exception_context(arena, ast);
    if let Some(s) = stmt {
        match arena.function(s) {
            Some(f) => {
                if !is_instance(&arena.kind(f), ASTType::ConstructorOrFunctionDefinition) {
                    return false;
                }
            },
            None => {
                return false;
            },
        }
    }
    match root {
        Some(r) => {
            if !matches!(arena.kind(ctr).shape, AstShape::NamespaceDefinition) {
                return false;
            }
            let ctr_arg = if is_instance(&arena.kind(ctr), ASTType::ContractDefinition) {
                Some(ctr)
            } else {
                None
            };
            let code = arena.original_code(r);
            code_error_msg_defined(arena, arena.line(ast), arena.column(ast), &code, ctr_arg, fct, stmt)
        },
        None => true,
    }
}

/// Describes where `ast` sits in the source, then appends `msg`: finds the
/// statement and function around `ast`, the contract and source unit above
/// them, and quotes the source text of that unit (see `get_code_error_msg`).
pub fn get_ast_exception_msg(arena: &AstArena, ast: usize, msg: String) -> (r: String)
    requires
        arena.wf(),
        ast < arena@.len(),
        ast_exception_msg_ok(arena@, ast as int),
    ensures
        r@ == spec_ast_exception_msg(arena@, ast as int, msg@),
{
    let (stmt, fct, ctr, root) = exception_context(arena, ast);
    let error_msg = match root {
        Some(r) => {
            let ctr_arg = if is_instance(&arena.kind(ctr), ASTType::ContractDefinition) {
                Some(ctr)
            } else {
                None
            };
            let code = arena.original_code(r);
            get_code_error_msg(arena, arena.line(ast), arena.column(ast), &code, ctr_arg, fct, stmt)
        },
        None => {
            let mut e = String::new();
            e.append("error");
            e
        },
    };
    let mut out = String::new();
    out.append(" ");
    out.append(error_msg.as_str());
    out.append("  ");
    out.append(msg.as_str());
    out
}

/// The text of a compiler warning of kind `warning_type` about `ast`: a
/// blank line, "WARNING: ", the kind, then the message that
/// `get_ast_exception_msg` builds.
pub fn compiler_warning_message(arena: &AstArena, ast: usize, warning_type: String, msg: String) -> (r: String)
    requires
        arena.wf(),
        ast < arena@.len(),
        ast_exception_msg_ok(arena@, ast as int),
    ensures
        r@ == " \nWARNING: "@ + warning_type@ + spec_ast_exception_msg(arena@, ast as int, msg@),
{
    let body = get_ast_exception_msg(arena, ast, msg);
    let mut out = String::new();
    out.append(" \nWARNING: ");
    out.append(warning_type.as_str());
    out.append(body.as_str());
    out
}

/// An error about a node of the tree, carrying the full message.
pub struct AstException(pub String);

impl AstException {
    /// The error about `ast` with the message built by `get_ast_exception_msg`.
    pub fn new(arena: &AstArena, ast: usize, msg: String) -> (r: Self)
        requires
            arena.wf(),
            ast < arena@.len(),
            ast_exception_msg_ok(arena@, ast as int),
        ensures
            r.0@ == spec_ast_exception_msg(arena@, ast as int, msg@),
    {
        AstException(get_ast_exception_msg(arena, ast, msg))
    }
}

} // verus!

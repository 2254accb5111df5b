//! What holds of the arena, its printer and the line format, for all inputs.
use crate::environment::{
    item_text, placeholder, DeclView, EnvView, ExprView, InfoAnnotation, IntegrityError, Level,
    Segment,
};
use crate::parser::{
    command_tag_of, field, index_tag_of, info_of, line_effect, CommandTag, Expected, IndexTag,
    LineError,
};
use crate::text::{index_value, join, tokens};
use vstd::prelude::*;

verus! {

/// A name chain, each link parented on the one before and the first on
/// none, prints as the segments of the links joined by dots, root first.
pub proof fn lemma_name_chain(v: EnvView, chain: Seq<usize>)
    requires
        v.wf(),
        chain.len() > 0,
        forall|j: int| 0 <= j < chain.len() ==> v.names.contains_key(#[trigger] chain[j]),
        v.names[chain[0]].parent == 0,
        forall|j: int| 1 <= j < chain.len() ==> v.names[#[trigger] chain[j]].parent == chain[j - 1],
    ensures
        v.name_text(chain.last()) == join(
            chain.map_values(|i: usize| item_text(v.names[i].item)),
            "."@,
        ),
    decreases chain.len(),
{
    let parts = chain.map_values(|i: usize| item_text(v.names[i].item));
    if chain.len() > 1 {
        let shorter = chain.drop_last();
        assert(v.names[chain.last()].parent == chain[chain.len() - 2]);
        lemma_name_chain(v, shorter);
        assert(parts.drop_last() =~= shorter.map_values(|i: usize| item_text(v.names[i].item)));
    }
}

/// A level built as `IMax(Max(Succ(Succ(Zero)), Param(n1)), Param(n2))`
/// prints as `(imax (max (succ (succ 0)) <n1>) <n2>)`.
pub proof fn lemma_level_shape(
    v: EnvView,
    s1: usize,
    s2: usize,
    p1: usize,
    p2: usize,
    m: usize,
    top: usize,
    n1: usize,
    n2: usize,
)
    requires
        v.wf(),
        v.levels.contains_key(s1) && v.levels[s1] == Level::Succ(0),
        v.levels.contains_key(s2) && v.levels[s2] == Level::Succ(s1),
        v.levels.contains_key(p1) && v.levels[p1] == Level::Param(n1),
        v.levels.contains_key(p2) && v.levels[p2] == Level::Param(n2),
        v.levels.contains_key(m) && v.levels[m] == Level::Max(s2, p1),
        v.levels.contains_key(top) && v.levels[top] == Level::IMax(m, p2),
    ensures
        v.level_text(top) == "(imax (max (succ (succ 0)) "@ + v.name_text(n1) + ") "@ + v.name_text(
            n2,
        ) + ")"@,
{
    reveal_strlit("(imax (max (succ (succ 0)) ");
    reveal_strlit(") ");
    reveal_strlit(")");
    reveal_strlit(" ");
    reveal_strlit("(imax ");
    reveal_strlit("(max ");
    reveal_strlit("(succ ");
    reveal_strlit("0");
    assert(v.level_text(0) == "0"@);
    assert(v.level_text(s1) == "(succ "@ + "0"@ + ")"@);
    assert(v.level_text(s2) == "(succ "@ + v.level_text(s1) + ")"@);
    assert(v.level_text(p1) == v.name_text(n1));
    assert(v.level_text(p2) == v.name_text(n2));
    assert(v.level_text(m) == "(max "@ + v.level_text(s2) + " "@ + v.name_text(n1) + ")"@);
    assert(v.level_text(top) == "(imax "@ + v.level_text(m) + " "@ + v.name_text(n2) + ")"@);
    assert(v.level_text(top) =~= "(imax (max (succ (succ 0)) "@ + v.name_text(n1) + ") "@
        + v.name_text(n2) + ")"@);
}

/// Adding at an index that its table already holds is refused as
/// occupied, whatever the payload; the arena operations then leave the
/// tables as they were.
pub proof fn lemma_occupied_refused(
    v: EnvView,
    idx: usize,
    item: Segment,
    parent: usize,
    l: Level,
    e: ExprView,
    d: DeclView,
)
    requires
        v.wf(),
    ensures
        v.names.contains_key(idx) ==> v.add_name(idx, item, parent) == Err::<EnvView, IntegrityError>(
            IntegrityError::Occupied,
        ),
        v.levels.contains_key(idx) ==> v.add_level(idx, l) == Err::<EnvView, IntegrityError>(
            IntegrityError::Occupied,
        ),
        v.exprs.contains_key(idx) ==> v.add_expr(idx, e) == Err::<EnvView, IntegrityError>(
            IntegrityError::Occupied,
        ),
        v.decls.contains_key(idx) ==> v.add_decl(idx, d) == Err::<EnvView, IntegrityError>(
            IntegrityError::Occupied,
        ),
{
}

/// Adding an entity that refers to an index absent from its table is
/// refused, as missing where the target index is free; the arena
/// operations then leave the tables as they were.
pub proof fn lemma_missing_refused(
    v: EnvView,
    idx: usize,
    item: Segment,
    parent: usize,
    l: Level,
    e: ExprView,
    d: DeclView,
)
    ensures
        parent != 0 && !v.names.contains_key(parent) ==> v.add_name(idx, item, parent) is Err,
        parent != 0 && !v.names.contains_key(parent) && idx != 0 && !v.names.contains_key(idx)
            ==> v.add_name(idx, item, parent) == Err::<EnvView, IntegrityError>(
            IntegrityError::Missing,
        ),
        !v.level_refs_present(l) ==> v.add_level(idx, l) is Err,
        !v.level_refs_present(l) && !v.levels.contains_key(idx) ==> v.add_level(idx, l) == Err::<
            EnvView,
            IntegrityError,
        >(IntegrityError::Missing),
        !v.expr_refs_present(e) ==> v.add_expr(idx, e) is Err,
        !v.expr_refs_present(e) && !v.exprs.contains_key(idx) ==> v.add_expr(idx, e) == Err::<
            EnvView,
            IntegrityError,
        >(IntegrityError::Missing),
        !v.decl_refs_present(idx, d) ==> v.add_decl(idx, d) is Err,
        !v.decl_refs_present(idx, d) && !v.decls.contains_key(idx) ==> v.add_decl(idx, d) == Err::<
            EnvView,
            IntegrityError,
        >(IntegrityError::Missing),
{
}

/// A bound variable that reaches past every enclosing binder prints as a
/// placeholder; the printer leaves its binder stack as it was (see
/// `Environment::expr_to_string_help`).
pub proof fn lemma_free_bound_var(v: EnvView, idx: usize, i: usize, stack: Seq<Seq<char>>)
    requires
        v.wf(),
        v.exprs.contains_key(idx),
        v.exprs[idx] == ExprView::BoundVar(i),
        i >= stack.len(),
    ensures
        v.expr_text(idx, stack) == placeholder(i),
{
}

/// A definition without universe parameters whose type is `Sort 0` and
/// whose body is a default binder named `x` over `Sort 0` with body the
/// bound variable `0` prints as `definition <name> Sort 0 := (<x> : Sort 0), <x>`.
pub proof fn lemma_identity_definition(
    v: EnvView,
    d: usize,
    t: usize,
    b: usize,
    dom: usize,
    var: usize,
    x: usize,
)
    requires
        v.wf(),
        v.decls.contains_key(d),
        v.decls[d] == DeclView::Def(t, b, Seq::empty()),
        v.exprs[t] == ExprView::Sort(0),
        v.exprs[b] == ExprView::Lambda(InfoAnnotation::Default, x, dom, var),
        v.exprs.contains_key(dom) && v.exprs[dom] == ExprView::Sort(0),
        v.exprs.contains_key(var) && v.exprs[var] == ExprView::BoundVar(0),
    ensures
        v.decl_text(d) == "definition "@ + v.name_text(d) + " Sort 0 := ("@ + v.name_text(x)
            + " : Sort 0), "@ + v.name_text(x),
{
    reveal_strlit("definition ");
    reveal_strlit(" Sort 0 := (");
    reveal_strlit(" : Sort 0), ");
    reveal_strlit("Sort ");
    reveal_strlit("0");
    reveal_strlit(" ");
    reveal_strlit(" := ");
    reveal_strlit(" : ");
    reveal_strlit("(");
    reveal_strlit(")");
    reveal_strlit(", ");
    let e: Seq<Seq<char>> = Seq::empty();
    let sort0 = "Sort "@ + "0"@;
    assert(v.level_text(0) == "0"@);
    assert(v.expr_text(t, e) == sort0);
    assert(v.expr_text(dom, e) == sort0);
    assert(v.expr_text(var, e.push(v.name_text(x))) == v.name_text(x));
    assert(v.expr_text(b, e) == "("@ + v.name_text(x) + " : "@ + sort0 + ")"@ + ", "@
        + v.name_text(x));
    assert(v.decl_text(d) =~= "definition "@ + v.name_text(d) + " Sort 0 := ("@ + v.name_text(x)
        + " : Sort 0), "@ + v.name_text(x));
}

/// How many argument tokens an index tag of fixed arity takes.
pub open spec fn fixed_arity(t: IndexTag) -> Option<int> {
    match t {
        IndexTag::Ni | IndexTag::Ns | IndexTag::Um | IndexTag::Uim | IndexTag::Ea => Some(2),
        IndexTag::Us | IndexTag::Up | IndexTag::Es | IndexTag::Ev => Some(1),
        IndexTag::Ep | IndexTag::El => Some(4),
        _ => None,
    }
}

/// The first tokens of `args` are well formed arguments of tag `t`.
pub open spec fn args_well_formed(t: IndexTag, args: Seq<Seq<char>>) -> bool {
    match t {
        IndexTag::Ns => field(args, 0) is Some && args.len() >= 2,
        IndexTag::Ni | IndexTag::Um | IndexTag::Uim | IndexTag::Ea => field(args, 0) is Some
            && field(args, 1) is Some,
        IndexTag::Us | IndexTag::Up | IndexTag::Es | IndexTag::Ev => field(args, 0) is Some,
        IndexTag::Ep | IndexTag::El => args.len() >= 1 && info_of(args[0]) is Some && field(args, 1)
            is Some && field(args, 2) is Some && field(args, 3) is Some,
        _ => false,
    }
}

/// A line made of an index, a tag of fixed arity and well formed arguments
/// for it, followed by more tokens, is refused as a grammar error that
/// expected the end of the line; `Parser::parse_line` then leaves the
/// tables as they were.
pub proof fn lemma_trailing_tokens(v: EnvView, line: Seq<char>)
    requires
        v.wf(),
        tokens(line).len() >= 2,
        index_value(tokens(line)[0]) is Some,
        index_tag_of(tokens(line)[1]) matches Some(t) && fixed_arity(t) matches Some(n)
            && args_well_formed(t, tokens(line).subrange(2, tokens(line).len() as int))
            && tokens(line).len() > 2 + n,
    ensures
        line_effect(v, line) == Err::<EnvView, LineError>(LineError::Grammar(Expected::Eol)),
{
    let toks = tokens(line);
    assert(toks.drop_first().drop_first() =~= toks.subrange(2, toks.len() as int));
}

/// A definition line whose name, type and body indices are followed by a
/// token that is not an index is refused as a grammar error that expected
/// the end of the line; `Parser::parse_line` then leaves the tables as
/// they were.
pub proof fn lemma_definition_trailing_token(v: EnvView, line: Seq<char>, k: int)
    requires
        v.wf(),
        tokens(line).len() >= 1,
        index_value(tokens(line)[0]) is None,
        command_tag_of(tokens(line)[0]) == Some(CommandTag::Def),
        field(tokens(line), 1) is Some,
        field(tokens(line), 2) is Some,
        field(tokens(line), 3) is Some,
        4 <= k < tokens(line).len(),
        field(tokens(line), k) is None,
    ensures
        line_effect(v, line) == Err::<EnvView, LineError>(LineError::Grammar(Expected::Eol)),
{
    let toks = tokens(line);
    let rest = toks.drop_first();
    let suffix = rest.subrange(3, rest.len() as int);
    assert(field(suffix, k - 4) is None);
}

} // verus!

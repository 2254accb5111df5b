//! The line format: each line either adds one name, level or expression at
//! the index that starts it, or declares one name. A line is applied in
//! whole or not at all.
use crate::environment::{
    DeclView, EnvView, Environment, ExprView, InfoAnnotation, IntegrityError, Level, NameItem,
    Segment,
};
use crate::text::{
    decimal, decimal_string, first_index, first_token, index_value, lemma_tokens_first, next,
    next_idx, parse_index, str_eq, tokens,
};
use vstd::prelude::*;

verus! {

/// What a line lacked where it went wrong.
#[derive(Debug, Clone, Copy, PartialEq, Eq, Structural)]
pub enum Expected {
    Index,
    Integer,
    Identifier,
    Info,
    InfoTag,
    Number,
    Eol,
    IndexCommand,
    IndexOrCommand,
}

/// The tags of the lines that start with an index.
#[derive(Debug, Clone, Copy, PartialEq, Eq, Structural)]
pub enum IndexTag {
    Ni,
    Ns,
    Us,
    Um,
    Uim,
    Up,
    Es,
    Ev,
    Ep,
    El,
    Ec,
    Ea,
    Ej,
    Eln,
    Els,
    Ez,
}

/// The tags of the declaration lines.
#[derive(Debug, Clone, Copy, PartialEq, Eq, Structural)]
pub enum CommandTag {
    Def,
    Ind,
    Ax,
    Quot,
    Prefix,
    Postfix,
    Infix,
}

/// Why a line was refused.
#[derive(Debug, PartialEq, Eq)]
pub enum LineError {
    /// The line could not be read.
    Io(String),
    /// The line does not follow the grammar of its tag.
    Grammar(Expected),
    /// The line breaks the rules of the arena.
    Integrity(IntegrityError),
    /// A line that starts with an index has a tag the format does not know.
    UnknownIndexCommand,
    /// A declaration line has a tag the format does not know.
    UnknownCommand,
    /// A tag of the format that this reader does not implement.
    UnsupportedIndexCommand(IndexTag),
    /// A declaration tag of the format that this reader does not implement.
    UnsupportedCommand(CommandTag),
}

/// The binder kind that token `t` stands for.
pub open spec fn info_of(t: Seq<char>) -> Option<InfoAnnotation> {
    if t == "#BD"@ {
        Some(InfoAnnotation::Default)
    } else if t == "#BI"@ {
        Some(InfoAnnotation::Implicit)
    } else if t == "#BS"@ {
        Some(InfoAnnotation::StrictImplicit)
    } else if t == "#BC"@ {
        Some(InfoAnnotation::InstImplicit)
    } else {
        None
    }
}

/// The tag that token `t` stands for after an index.
pub open spec fn index_tag_of(t: Seq<char>) -> Option<IndexTag> {
    if t == "#NI"@ {
        Some(IndexTag::Ni)
    } else if t == "#NS"@ {
        Some(IndexTag::Ns)
    } else if t == "#US"@ {
        Some(IndexTag::Us)
    } else if t == "#UM"@ {
        Some(IndexTag::Um)
    } else if t == "#UIM"@ {
        Some(IndexTag::Uim)
    } else if t == "#UP"@ {
        Some(IndexTag::Up)
    } else if t == "#ES"@ {
        Some(IndexTag::Es)
    } else if t == "#EV"@ {
        Some(IndexTag::Ev)
    } else if t == "#EP"@ {
        Some(IndexTag::Ep)
    } else if t == "#EL"@ {
        Some(IndexTag::El)
    } else if t == "#EC"@ {
        Some(IndexTag::Ec)
    } else if t == "#EA"@ {
        Some(IndexTag::Ea)
    } else if t == "#EJ"@ {
        Some(IndexTag::Ej)
    } else if t == "#ELN"@ {
        Some(IndexTag::Eln)
    } else if t == "#ELS"@ {
        Some(IndexTag::Els)
    } else if t == "#EZ"@ {
        Some(IndexTag::Ez)
    } else {
        None
    }
}

/// The declaration tag that token `t` stands for.
pub open spec fn command_tag_of(t: Seq<char>) -> Option<CommandTag> {
    if t == "#DEF"@ {
        Some(CommandTag::Def)
    } else if t == "#AX"@ {
        Some(CommandTag::Ax)
    } else if t == "#IND"@ {
        Some(CommandTag::Ind)
    } else if t == "#QUOT"@ {
        Some(CommandTag::Quot)
    } else if t == "#PREFIX"@ {
        Some(CommandTag::Prefix)
    } else if t == "#POSTFIX"@ {
        Some(CommandTag::Postfix)
    } else if t == "#INFIX"@ {
        Some(CommandTag::Infix)
    } else {
        None
    }
}

/// Token `k` of `toks` read as an index, if there is such a token and it is one.
pub open spec fn field(toks: Seq<Seq<char>>, k: int) -> Option<usize> {
    if 0 <= k < toks.len() {
        index_value(toks[k])
    } else {
        None
    }
}

/// An arena refusal as a line error.
pub open spec fn lift(r: Result<EnvView, IntegrityError>) -> Result<EnvView, LineError> {
    match r {
        Ok(v) => Ok(v),
        Err(e) => Err(LineError::Integrity(e)),
    }
}

/// What a parse step leaves behind: on `Ok` the new tables, on `Err` the
/// error with the tables unchanged.
pub open spec fn effect<T>(
    before: EnvView,
    after: EnvView,
    r: Result<T, LineError>,
    expected: Result<EnvView, LineError>,
) -> bool {
    match expected {
        Ok(v) => r is Ok && after == v,
        Err(e) => r == Err::<T, LineError>(e) && after == before,
    }
}

/// A grammar refusal that names what was expected.
pub open spec fn grammar(e: Expected) -> Result<EnvView, LineError> {
    Err(LineError::Grammar(e))
}

/// `<parent> <integer>`
pub open spec fn ni_effect(v: EnvView, idx: usize, toks: Seq<Seq<char>>) -> Result<EnvView, LineError> {
    match field(toks, 0) {
        None => grammar(Expected::Index),
        Some(p) => match field(toks, 1) {
            None => grammar(Expected::Integer),
            Some(i) => if toks.len() > 2 {
                grammar(Expected::Eol)
            } else {
                lift(v.add_name(idx, Segment::Int(i), p))
            },
        },
    }
}

/// `<parent> <text>`
pub open spec fn ns_effect(v: EnvView, idx: usize, toks: Seq<Seq<char>>) -> Result<EnvView, LineError> {
    match field(toks, 0) {
        None => grammar(Expected::Index),
        Some(p) => if toks.len() < 2 {
            grammar(Expected::Identifier)
        } else if toks.len() > 2 {
            grammar(Expected::Eol)
        } else {
            lift(v.add_name(idx, Segment::Str(toks[1]), p))
        },
    }
}

/// One index and the end of the line: a `Succ`, `Param` or `Sort`.
pub open spec fn one_index_of(toks: Seq<Seq<char>>) -> Result<usize, LineError> {
    match field(toks, 0) {
        None => Err(LineError::Grammar(Expected::Index)),
        Some(a) => if toks.len() > 1 {
            Err(LineError::Grammar(Expected::Eol))
        } else {
            Ok(a)
        },
    }
}

/// Two indices and the end of the line: a `Max`, an `IMax` or an application.
pub open spec fn two_indices_of(toks: Seq<Seq<char>>) -> Result<(usize, usize), LineError> {
    match field(toks, 0) {
        None => Err(LineError::Grammar(Expected::Index)),
        Some(a) => match field(toks, 1) {
            None => Err(LineError::Grammar(Expected::Index)),
            Some(b) => if toks.len() > 2 {
                Err(LineError::Grammar(Expected::Eol))
            } else {
                Ok((a, b))
            },
        },
    }
}

/// `<info> <name> <domain> <body>` and the end of the line: a binder.
pub open spec fn binder_of(toks: Seq<Seq<char>>) -> Result<
    (InfoAnnotation, usize, usize, usize),
    LineError,
> {
    if toks.len() < 1 {
        Err(LineError::Grammar(Expected::Info))
    } else {
        match info_of(toks[0]) {
            None => Err(LineError::Grammar(Expected::InfoTag)),
            Some(info) => match field(toks, 1) {
                None => Err(LineError::Grammar(Expected::Index)),
                Some(n) => match field(toks, 2) {
                    None => Err(LineError::Grammar(Expected::Index)),
                    Some(d) => match field(toks, 3) {
                        None => Err(LineError::Grammar(Expected::Index)),
                        Some(b) => if toks.len() > 4 {
                            Err(LineError::Grammar(Expected::Eol))
                        } else {
                            Ok((info, n, d, b))
                        },
                    },
                },
            },
        }
    }
}

/// Indices up to the end of the line.
pub open spec fn indices_of(toks: Seq<Seq<char>>) -> Result<Seq<usize>, LineError> {
    if forall|k: int| 0 <= k < toks.len() ==> #[trigger] field(toks, k) is Some {
        Ok(toks.map_values(|t: Seq<char>| index_value(t)->0))
    } else {
        Err(LineError::Grammar(Expected::Eol))
    }
}

/// `<level>`: a successor level.
pub open spec fn us_effect(v: EnvView, idx: usize, toks: Seq<Seq<char>>) -> Result<EnvView, LineError> {
    match one_index_of(toks) {
        Err(e) => Err(e),
        Ok(a) => lift(v.add_level(idx, Level::Succ(a))),
    }
}

/// `<level> <level>`: a maximum.
pub open spec fn um_effect(v: EnvView, idx: usize, toks: Seq<Seq<char>>) -> Result<EnvView, LineError> {
    match two_indices_of(toks) {
        Err(e) => Err(e),
        Ok((a, b)) => lift(v.add_level(idx, Level::Max(a, b))),
    }
}

/// `<level> <level>`: an impredicative maximum.
pub open spec fn uim_effect(v: EnvView, idx: usize, toks: Seq<Seq<char>>) -> Result<EnvView, LineError> {
    match two_indices_of(toks) {
        Err(e) => Err(e),
        Ok((a, b)) => lift(v.add_level(idx, Level::IMax(a, b))),
    }
}

/// `<name>`: a level parameter.
pub open spec fn up_effect(v: EnvView, idx: usize, toks: Seq<Seq<char>>) -> Result<EnvView, LineError> {
    match one_index_of(toks) {
        Err(e) => Err(e),
        Ok(n) => lift(v.add_level(idx, Level::Param(n))),
    }
}

/// `<level>`: a sort.
pub open spec fn es_effect(v: EnvView, idx: usize, toks: Seq<Seq<char>>) -> Result<EnvView, LineError> {
    match one_index_of(toks) {
        Err(e) => Err(e),
        Ok(u) => lift(v.add_expr(idx, ExprView::Sort(u))),
    }
}

/// `<info> <name> <domain> <codomain>`: a dependent function type.
pub open spec fn ep_effect(v: EnvView, idx: usize, toks: Seq<Seq<char>>) -> Result<EnvView, LineError> {
    match binder_of(toks) {
        Err(e) => Err(e),
        Ok((info, n, d, b)) => lift(v.add_expr(idx, ExprView::Pi(info, n, d, b))),
    }
}

/// `<info> <name> <domain> <body>`: a function.
pub open spec fn el_effect(v: EnvView, idx: usize, toks: Seq<Seq<char>>) -> Result<EnvView, LineError> {
    match binder_of(toks) {
        Err(e) => Err(e),
        Ok((info, n, d, b)) => lift(v.add_expr(idx, ExprView::Lambda(info, n, d, b))),
    }
}

/// `<expr> <expr>`: an application.
pub open spec fn ea_effect(v: EnvView, idx: usize, toks: Seq<Seq<char>>) -> Result<EnvView, LineError> {
    match two_indices_of(toks) {
        Err(e) => Err(e),
        Ok((f, a)) => lift(v.add_expr(idx, ExprView::FunAppl(f, a))),
    }
}

/// `<integer>`: a bound variable.
pub open spec fn ev_effect(v: EnvView, idx: usize, toks: Seq<Seq<char>>) -> Result<EnvView, LineError> {
    match field(toks, 0) {
        None => grammar(Expected::Integer),
        Some(i) => if toks.len() > 1 {
            grammar(Expected::Eol)
        } else {
            lift(v.add_expr(idx, ExprView::BoundVar(i)))
        },
    }
}

/// `<name> <level>*`: a constant.
pub open spec fn ec_effect(v: EnvView, idx: usize, toks: Seq<Seq<char>>) -> Result<EnvView, LineError> {
    match field(toks, 0) {
        None => grammar(Expected::Index),
        Some(n) => match indices_of(toks.drop_first()) {
            Err(e) => Err(e),
            Ok(ls) => lift(v.add_expr(idx, ExprView::Constant(n, ls))),
        },
    }
}

/// `<name> <type> <body> <level name>*`: a definition.
pub open spec fn def_effect(v: EnvView, toks: Seq<Seq<char>>) -> Result<EnvView, LineError> {
    match field(toks, 0) {
        None => grammar(Expected::Index),
        Some(n) => match field(toks, 1) {
            None => grammar(Expected::Index),
            Some(t) => match field(toks, 2) {
                None => grammar(Expected::Index),
                Some(b) => match indices_of(toks.subrange(3, toks.len() as int)) {
                    Err(e) => Err(e),
                    Ok(ps) => lift(v.add_decl(n, DeclView::Def(t, b, ps))),
                },
            },
        },
    }
}

/// The `k` constructors that follow position `4` of an inductive line.
pub open spec fn intros_of(toks: Seq<Seq<char>>, k: usize) -> Seq<(usize, usize)> {
    Seq::new(k as nat, |j: int| (field(toks, 4 + 2 * j)->0, field(toks, 5 + 2 * j)->0))
}

/// `<params> <name> <type> <k> (<name> <type>){k} <level name>*`: an
/// inductive type.
pub open spec fn ind_effect(v: EnvView, toks: Seq<Seq<char>>) -> Result<EnvView, LineError> {
    match field(toks, 0) {
        None => grammar(Expected::Number),
        Some(num) => match field(toks, 1) {
            None => grammar(Expected::Index),
            Some(n) => match field(toks, 2) {
                None => grammar(Expected::Index),
                Some(t) => match field(toks, 3) {
                    None => grammar(Expected::Number),
                    Some(k) => if exists|j: int| 4 <= j < 4 + 2 * k && #[trigger] field(toks, j) is None {
                        grammar(Expected::Index)
                    } else {
                        match indices_of(toks.subrange(4 + 2 * k, toks.len() as int)) {
                            Err(e) => Err(e),
                            Ok(ps) => lift(v.add_decl(n, DeclView::Ind(num, t, intros_of(toks, k), ps))),
                        }
                    },
                },
            },
        },
    }
}

/// A line that starts with index `idx`, followed by the tokens `toks`.
pub open spec fn index_command_effect(v: EnvView, idx: usize, toks: Seq<Seq<char>>) -> Result<EnvView, LineError> {
    if toks.len() == 0 {
        grammar(Expected::IndexCommand)
    } else {
        let rest = toks.drop_first();
        match index_tag_of(toks[0]) {
            Some(IndexTag::Ni) => ni_effect(v, idx, rest),
            Some(IndexTag::Ns) => ns_effect(v, idx, rest),
            Some(IndexTag::Us) => us_effect(v, idx, rest),
            Some(IndexTag::Um) => um_effect(v, idx, rest),
            Some(IndexTag::Uim) => uim_effect(v, idx, rest),
            Some(IndexTag::Up) => up_effect(v, idx, rest),
            Some(IndexTag::Es) => es_effect(v, idx, rest),
            Some(IndexTag::Ev) => ev_effect(v, idx, rest),
            Some(IndexTag::Ep) => ep_effect(v, idx, rest),
            Some(IndexTag::El) => el_effect(v, idx, rest),
            Some(IndexTag::Ec) => ec_effect(v, idx, rest),
            Some(IndexTag::Ea) => ea_effect(v, idx, rest),
            Some(tag) => Err(LineError::UnsupportedIndexCommand(tag)),
            None => Err(LineError::UnknownIndexCommand),
        }
    }
}

/// A declaration line with tag token `cmd`, followed by the tokens `toks`.
pub open spec fn command_effect(v: EnvView, cmd: Seq<char>, toks: Seq<Seq<char>>) -> Result<EnvView, LineError> {
    match command_tag_of(cmd) {
        Some(CommandTag::Def) => def_effect(v, toks),
        Some(CommandTag::Ind) => ind_effect(v, toks),
        Some(tag) => Err(LineError::UnsupportedCommand(tag)),
        None => Err(LineError::UnknownCommand),
    }
}

/// What line `line` does to the tables `v`.
pub open spec fn line_effect(v: EnvView, line: Seq<char>) -> Result<EnvView, LineError> {
    let toks = tokens(line);
    if toks.len() == 0 {
        grammar(Expected::IndexOrCommand)
    } else {
        match index_value(toks[0]) {
            Some(idx) => index_command_effect(v, idx, toks.drop_first()),
            None => command_effect(v, toks[0], toks.drop_first()),
        }
    }
}

/// Where a line is read up to position `k` of its tokens `toks`, the next
/// token, or index, and what remains.
proof fn lemma_step(s: Seq<char>, toks: Seq<Seq<char>>, k: int)
    requires
        0 <= k <= toks.len(),
        tokens(s) == toks.subrange(k, toks.len() as int),
    ensures
        first_token(s) is None <==> k == toks.len(),
        first_token(s) matches Some((t, r)) ==> toks[k] == t && tokens(r) == toks.subrange(
            k + 1,
            toks.len() as int,
        ),
        first_index(s) is None <==> field(toks, k) is None,
        first_index(s) matches Some((i, r)) ==> field(toks, k) == Some(i) && tokens(r)
            == toks.subrange(k + 1, toks.len() as int),
{
    lemma_tokens_first(s);
    if k < toks.len() {
        assert(toks.subrange(k, toks.len() as int).drop_first() =~= toks.subrange(
            k + 1,
            toks.len() as int,
        ));
    }
}

/// Reads a binder kind token.
pub fn parse_info_annotation(s: &str) -> (r: Result<InfoAnnotation, LineError>)
    ensures
        r == match info_of(s@) {
            Some(i) => Ok(i),
            None => Err(LineError::Grammar(Expected::InfoTag)),
        },
{
    if str_eq(s, "#BD") {
        Ok(InfoAnnotation::Default)
    } else if str_eq(s, "#BI") {
        Ok(InfoAnnotation::Implicit)
    } else if str_eq(s, "#BS") {
        Ok(InfoAnnotation::StrictImplicit)
    } else if str_eq(s, "#BC") {
        Ok(InfoAnnotation::InstImplicit)
    } else {
        Err(LineError::Grammar(Expected::InfoTag))
    }
}

/// Reads the tag of a line that starts with an index.
pub fn index_tag(t: &str) -> (r: Option<IndexTag>)
    ensures
        r == index_tag_of(t@),
{
    if str_eq(t, "#NI") {
        Some(IndexTag::Ni)
    } else if str_eq(t, "#NS") {
        Some(IndexTag::Ns)
    } else if str_eq(t, "#US") {
        Some(IndexTag::Us)
    } else if str_eq(t, "#UM") {
        Some(IndexTag::Um)
    } else if str_eq(t, "#UIM") {
        Some(IndexTag::Uim)
    } else if str_eq(t, "#UP") {
        Some(IndexTag::Up)
    } else if str_eq(t, "#ES") {
        Some(IndexTag::Es)
    } else if str_eq(t, "#EV") {
        Some(IndexTag::Ev)
    } else if str_eq(t, "#EP") {
        Some(IndexTag::Ep)
    } else if str_eq(t, "#EL") {
        Some(IndexTag::El)
    } else if str_eq(t, "#EC") {
        Some(IndexTag::Ec)
    } else if str_eq(t, "#EA") {
        Some(IndexTag::Ea)
    } else if str_eq(t, "#EJ") {
        Some(IndexTag::Ej)
    } else if str_eq(t, "#ELN") {
        Some(IndexTag::Eln)
    } else if str_eq(t, "#ELS") {
        Some(IndexTag::Els)
    } else if str_eq(t, "#EZ") {
        Some(IndexTag::Ez)
    } else {
        None
    }
}

/// Reads the tag of a declaration line.
pub fn command_tag(t: &str) -> (r: Option<CommandTag>)
    ensures
        r == command_tag_of(t@),
{
    if str_eq(t, "#DEF") {
        Some(CommandTag::Def)
    } else if str_eq(t, "#AX") {
        Some(CommandTag::Ax)
    } else if str_eq(t, "#IND") {
        Some(CommandTag::Ind)
    } else if str_eq(t, "#QUOT") {
        Some(CommandTag::Quot)
    } else if str_eq(t, "#PREFIX") {
        Some(CommandTag::Prefix)
    } else if str_eq(t, "#POSTFIX") {
        Some(CommandTag::Postfix)
    } else if str_eq(t, "#INFIX") {
        Some(CommandTag::Infix)
    } else {
        None
    }
}

/// Succeeds when nothing but separators is left.
pub fn check_eol(s: &str) -> (r: Result<(), LineError>)
    ensures
        r == if tokens(s@).len() == 0 {
            Ok::<(), LineError>(())
        } else {
            Err(LineError::Grammar(Expected::Eol))
        },
{
    proof {
        lemma_tokens_first(s@);
    }
    match next(s) {
        Some(_) => Err(LineError::Grammar(Expected::Eol)),
        None => Ok(()),
    }
}

fn one_index(s: &str) -> (r: Result<usize, LineError>)
    ensures
        r == one_index_of(tokens(s@)),
{
    let ghost toks = tokens(s@);
    proof {
        assert(toks.subrange(0, toks.len() as int) =~= toks);
        lemma_step(s@, toks, 0);
    }
    let (a, rest) = match next_idx(s) {
        Some(x) => x,
        None => {
            return Err(LineError::Grammar(Expected::Index));
        },
    };
    match check_eol(rest) {
        Err(e) => Err(e),
        Ok(()) => Ok(a),
    }
}

fn two_indices(s: &str) -> (r: Result<(usize, usize), LineError>)
    ensures
        r == two_indices_of(tokens(s@)),
{
    let ghost toks = tokens(s@);
    proof {
        assert(toks.subrange(0, toks.len() as int) =~= toks);
        lemma_step(s@, toks, 0);
    }
    let (a, rest) = match next_idx(s) {
        Some(x) => x,
        None => {
            return Err(LineError::Grammar(Expected::Index));
        },
    };
    proof {
        lemma_step(rest@, toks, 1);
    }
    let (b, rest) = match next_idx(rest) {
        Some(x) => x,
        None => {
            return Err(LineError::Grammar(Expected::Index));
        },
    };
    match check_eol(rest) {
        Err(e) => Err(e),
        Ok(()) => Ok((a, b)),
    }
}

fn binder(s: &str) -> (r: Result<(InfoAnnotation, usize, usize, usize), LineError>)
    ensures
        r == binder_of(tokens(s@)),
{
    let ghost toks = tokens(s@);
    proof {
        assert(toks.subrange(0, toks.len() as int) =~= toks);
        lemma_step(s@, toks, 0);
    }
    let (info, rest) = match next(s) {
        Some(x) => x,
        None => {
            return Err(LineError::Grammar(Expected::Info));
        },
    };
    let info = match parse_info_annotation(info) {
        Ok(i) => i,
        Err(e) => {
            return Err(e);
        },
    };
    proof {
        lemma_step(rest@, toks, 1);
    }
    let (n, rest) = match next_idx(rest) {
        Some(x) => x,
        None => {
            return Err(LineError::Grammar(Expected::Index));
        },
    };
    proof {
        lemma_step(rest@, toks, 2);
    }
    let (d, rest) = match next_idx(rest) {
        Some(x) => x,
        None => {
            return Err(LineError::Grammar(Expected::Index));
        },
    };
    proof {
        lemma_step(rest@, toks, 3);
    }
    let (b, rest) = match next_idx(rest) {
        Some(x) => x,
        None => {
            return Err(LineError::Grammar(Expected::Index));
        },
    };
    match check_eol(rest) {
        Err(e) => Err(e),
        Ok(()) => Ok((info, n, d, b)),
    }
}

fn indices(s: &str) -> (r: Result<Vec<usize>, LineError>)
    ensures
        match r {
            Ok(v) => indices_of(tokens(s@)) == Ok::<Seq<usize>, LineError>(v@),
            Err(e) => indices_of(tokens(s@)) == Err::<Seq<usize>, LineError>(e),
        },
{
    let ghost toks = tokens(s@);
    let ghost vals = toks.map_values(|t: Seq<char>| index_value(t)->0);
    let mut out: Vec<usize> = Vec::new();
    let mut rest = s;
    proof {
        assert(toks.subrange(0, toks.len() as int) =~= toks);
    }
    loop
        invariant
            out@.len() <= toks.len(),
            tokens(rest@) == toks.subrange(out@.len() as int, toks.len() as int),
            forall|k: int| 0 <= k < out@.len() ==> #[trigger] field(toks, k) is Some,
            vals == toks.map_values(|t: Seq<char>| index_value(t)->0),
            out@ =~= vals.subrange(0, out@.len() as int),
        ensures
            out@.len() <= toks.len(),
            tokens(rest@) == toks.subrange(out@.len() as int, toks.len() as int),
            forall|k: int| 0 <= k < out@.len() ==> #[trigger] field(toks, k) is Some,
            out@ =~= vals.subrange(0, out@.len() as int),
            field(toks, out@.len() as int) is None,
        decreases toks.len() - out@.len(),
    {
        proof {
            lemma_step(rest@, toks, out@.len() as int);
        }
        match next_idx(rest) {
            Some((i, r)) => {
                out.push(i);
                rest = r;
            },
            None => {
                break ;
            },
        }
    }
    proof {
        lemma_step(rest@, toks, out@.len() as int);
    }
    match check_eol(rest) {
        Err(e) => {
            proof {
                assert(field(toks, out@.len() as int) is None);
            }
            Err(e)
        },
        Ok(()) => {
            proof {
                assert(out@ =~= vals);
            }
            Ok(out)
        },
    }
}

/// An arena refusal as a line error.
fn from_integrity(r: Result<(), IntegrityError>) -> (out: Result<(), LineError>)
    ensures
        out == match r {
            Ok(_) => Ok::<(), LineError>(()),
            Err(e) => Err(LineError::Integrity(e)),
        },
{
    match r {
        Ok(()) => Ok(()),
        Err(e) => Err(LineError::Integrity(e)),
    }
}

/// What a grammar error names as missing.
pub open spec fn expected_text(e: Expected) -> Seq<char> {
    match e {
        Expected::Index => "index"@,
        Expected::Integer => "integer"@,
        Expected::Identifier => "identifier"@,
        Expected::Info => "info"@,
        Expected::InfoTag => "info tag"@,
        Expected::Number => "number"@,
        Expected::Eol => "EOL"@,
        Expected::IndexCommand => "index command"@,
        Expected::IndexOrCommand => "index or command"@,
    }
}

/// The text of an arena refusal.
pub open spec fn integrity_text(e: IntegrityError) -> Seq<char> {
    match e {
        IntegrityError::Occupied => "Index already in use"@,
        IntegrityError::Reserved => "Name index 0 is reserved"@,
        IntegrityError::Missing => "Reference to a missing index"@,
    }
}

/// The token of an index tag.
pub open spec fn index_tag_text(t: IndexTag) -> Seq<char> {
    match t {
        IndexTag::Ni => "#NI"@,
        IndexTag::Ns => "#NS"@,
        IndexTag::Us => "#US"@,
        IndexTag::Um => "#UM"@,
        IndexTag::Uim => "#UIM"@,
        IndexTag::Up => "#UP"@,
        IndexTag::Es => "#ES"@,
        IndexTag::Ev => "#EV"@,
        IndexTag::Ep => "#EP"@,
        IndexTag::El => "#EL"@,
        IndexTag::Ec => "#EC"@,
        IndexTag::Ea => "#EA"@,
        IndexTag::Ej => "#EJ"@,
        IndexTag::Eln => "#ELN"@,
        IndexTag::Els => "#ELS"@,
        IndexTag::Ez => "#EZ"@,
    }
}

/// The token of a declaration tag.
pub open spec fn command_tag_text(t: CommandTag) -> Seq<char> {
    match t {
        CommandTag::Def => "#DEF"@,
        CommandTag::Ind => "#IND"@,
        CommandTag::Ax => "#AX"@,
        CommandTag::Quot => "#QUOT"@,
        CommandTag::Prefix => "#PREFIX"@,
        CommandTag::Postfix => "#POSTFIX"@,
        CommandTag::Infix => "#INFIX"@,
    }
}

/// The text of a line error.
pub open spec fn line_error_text(e: LineError) -> Seq<char> {
    match e {
        LineError::Io(m) => m@,
        LineError::Grammar(x) => "Expecting "@ + expected_text(x),
        LineError::Integrity(i) => integrity_text(i),
        LineError::UnknownIndexCommand => "Unsupported index command"@,
        LineError::UnknownCommand => "Unsupported command"@,
        LineError::UnsupportedIndexCommand(t) => "Not implemented: "@ + index_tag_text(t),
        LineError::UnsupportedCommand(t) => "Not implemented: "@ + command_tag_text(t),
    }
}

impl Expected {
    /// What this names as missing.
    pub fn text(&self) -> (r: &'static str)
        ensures
            r@ == expected_text(*self),
    {
        match self {
            Expected::Index => "index",
            Expected::Integer => "integer",
            Expected::Identifier => "identifier",
            Expected::Info => "info",
            Expected::InfoTag => "info tag",
            Expected::Number => "number",
            Expected::Eol => "EOL",
            Expected::IndexCommand => "index command",
            Expected::IndexOrCommand => "index or command",
        }
    }
}

impl IndexTag {
    /// The token of this tag.
    pub fn text(&self) -> (r: &'static str)
        ensures
            r@ == index_tag_text(*self),
    {
        match self {
            IndexTag::Ni => "#NI",
            IndexTag::Ns => "#NS",
            IndexTag::Us => "#US",
            IndexTag::Um => "#UM",
            IndexTag::Uim => "#UIM",
            IndexTag::Up => "#UP",
            IndexTag::Es => "#ES",
            IndexTag::Ev => "#EV",
            IndexTag::Ep => "#EP",
            IndexTag::El => "#EL",
            IndexTag::Ec => "#EC",
            IndexTag::Ea => "#EA",
            IndexTag::Ej => "#EJ",
            IndexTag::Eln => "#ELN",
            IndexTag::Els => "#ELS",
            IndexTag::Ez => "#EZ",
        }
    }
}

impl CommandTag {
    /// The token of this tag.
    pub fn text(&self) -> (r: &'static str)
        ensures
            r@ == command_tag_text(*self),
    {
        match self {
            CommandTag::Def => "#DEF",
            CommandTag::Ind => "#IND",
            CommandTag::Ax => "#AX",
            CommandTag::Quot => "#QUOT",
            CommandTag::Prefix => "#PREFIX",
            CommandTag::Postfix => "#POSTFIX",
            CommandTag::Infix => "#INFIX",
        }
    }
}

impl LineError {
    /// The text of this error.
    pub fn message(&self) -> (r: String)
        ensures
            r@ == line_error_text(*self),
    {
        match self {
            LineError::Io(m) => m.clone(),
            LineError::Grammar(x) => String::from_str("Expecting ").concat(x.text()),
            LineError::Integrity(i) => String::from_str(
                match i {
                    IntegrityError::Occupied => "Index already in use",
                    IntegrityError::Reserved => "Name index 0 is reserved",
                    IntegrityError::Missing => "Reference to a missing index",
                },
            ),
            LineError::UnknownIndexCommand => String::from_str("Unsupported index command"),
            LineError::UnknownCommand => String::from_str("Unsupported command"),
            LineError::UnsupportedIndexCommand(t) => String::from_str("Not implemented: ").concat(
                t.text(),
            ),
            LineError::UnsupportedCommand(t) => String::from_str("Not implemented: ").concat(
                t.text(),
            ),
        }
    }
}

/// A refused line and its number, counted from `1`.
#[derive(Debug, PartialEq, Eq)]
pub struct ParseError {
    pub line_error: LineError,
    pub line_no: usize,
}

impl ParseError {
    /// The refusal `line_error` of line `line_no`.
    pub fn new(line_error: LineError, line_no: usize) -> (r: Self)
        ensures
            r.line_error == line_error,
            r.line_no == line_no,
    {
        ParseError { line_error, line_no }
    }

    /// `Parse error at line <n>: <error>`.
    pub fn message(&self) -> (r: String)
        ensures
            r@ == "Parse error at line "@ + decimal(self.line_no as nat) + ": "@ + line_error_text(
                self.line_error,
            ),
    {
        let mut r = String::from_str("Parse error at line ");
        r.append(decimal_string(self.line_no).as_str());
        r.append(": ");
        r.append(self.line_error.message().as_str());
        r
    }
}

/// The entity that a line added: its table and index.
#[derive(Debug, Clone, Copy, PartialEq, Eq, Structural)]
pub enum Added {
    Name(usize),
    Level(usize),
    Expr(usize),
    Decl(usize),
}

/// The entity that line `line` adds where it is accepted.
pub open spec fn line_added(line: Seq<char>) -> Added {
    let toks = tokens(line);
    match index_value(toks[0]) {
        Some(idx) => match index_tag_of(toks[1]) {
            Some(IndexTag::Ni) | Some(IndexTag::Ns) => Added::Name(idx),
            Some(IndexTag::Us) | Some(IndexTag::Um) | Some(IndexTag::Uim) | Some(IndexTag::Up) => {
                Added::Level(idx)
            },
            _ => Added::Expr(idx),
        },
        None => match command_tag_of(toks[0]) {
            Some(CommandTag::Def) => Added::Decl(field(toks, 1)->0),
            _ => Added::Decl(field(toks, 2)->0),
        },
    }
}

/// Reads lines into an arena, counting them.
pub struct Parser {
    env: Environment,
    line_no: usize,
}

impl View for Parser {
    type V = EnvView;

    closed spec fn view(&self) -> EnvView {
        self.env@
    }
}

impl Parser {
    /// A reader with an arena that holds only level `0`, at line `1`.
    pub fn new() -> (r: Self)
        ensures
            r@ == EnvView::initial(),
            r@.wf(),
            r.next_line() == 1,
    {
        Parser { env: Environment::new(), line_no: 1 }
    }

    /// The number of the next line: one more than the lines applied so far.
    pub closed spec fn next_line(&self) -> usize {
        self.line_no
    }

    /// The number of the next line.
    pub fn line_no(&self) -> (r: usize)
        ensures
            r == self.next_line(),
    {
        self.line_no
    }

    /// Applies the next line of the input; a refusal carries the line's
    /// number.
    pub fn parse_next_line(&mut self, line: &str) -> (r: Result<Added, ParseError>)
        requires
            old(self)@.wf(),
            old(self).next_line() < usize::MAX,
        ensures
            final(self)@.wf(),
            match line_effect(old(self)@, line@) {
                Ok(v) => r == Ok::<Added, ParseError>(line_added(line@)) && final(self)@ == v
                    && final(self).next_line() == old(self).next_line() + 1,
                Err(e) => r == Err::<Added, ParseError>(
                    (ParseError { line_error: e, line_no: old(self).next_line() }),
                ) && final(self)@ == old(self)@ && final(self).next_line() == old(
                    self,
                ).next_line(),
            },
    {
        let n = self.line_no;
        let r = self.parse_line(line);
        self.line_no = if r.is_ok() {
            n + 1
        } else {
            n
        };
        match r {
            Ok(a) => Ok(a),
            Err(e) => Err(ParseError::new(e, n)),
        }
    }

    /// The refusal of the next line, which could not be read.
    pub fn read_failure(&self, msg: String) -> (r: ParseError)
        ensures
            r == (ParseError { line_error: LineError::Io(msg), line_no: self.next_line() }),
    {
        ParseError::new(LineError::Io(msg), self.line_no)
    }

    fn parse_ni(&mut self, idx: usize, s: &str) -> (r: Result<(), LineError>)
        requires
            old(self)@.wf(),
        ensures
            final(self)@.wf(),
            effect(old(self)@, final(self)@, r, ni_effect(old(self)@, idx, tokens(s@))),
    {
        let ghost toks = tokens(s@);
        proof {
            assert(toks.subrange(0, toks.len() as int) =~= toks);
            lemma_step(s@, toks, 0);
        }
        let (p, rest) = match next_idx(s) {
            Some(x) => x,
            None => {
                return Err(LineError::Grammar(Expected::Index));
            },
        };
        proof {
            lemma_step(rest@, toks, 1);
        }
        let (i, rest) = match next_idx(rest) {
            Some(x) => x,
            None => {
                return Err(LineError::Grammar(Expected::Integer));
            },
        };
        match check_eol(rest) {
            Err(e) => Err(e),
            Ok(()) => from_integrity(self.env.add_name(idx, NameItem::Int(i), p)),
        }
    }

    fn parse_ns(&mut self, idx: usize, s: &str) -> (r: Result<(), LineError>)
        requires
            old(self)@.wf(),
        ensures
            final(self)@.wf(),
            effect(old(self)@, final(self)@, r, ns_effect(old(self)@, idx, tokens(s@))),
    {
        let ghost toks = tokens(s@);
        proof {
            assert(toks.subrange(0, toks.len() as int) =~= toks);
            lemma_step(s@, toks, 0);
        }
        let (p, rest) = match next_idx(s) {
            Some(x) => x,
            None => {
                return Err(LineError::Grammar(Expected::Index));
            },
        };
        proof {
            lemma_step(rest@, toks, 1);
        }
        let (t, rest) = match next(rest) {
            Some(x) => x,
            None => {
                return Err(LineError::Grammar(Expected::Identifier));
            },
        };
        match check_eol(rest) {
            Err(e) => Err(e),
            Ok(()) => from_integrity(self.env.add_name(idx, NameItem::Str(String::from_str(t)), p)),
        }
    }

    fn parse_us(&mut self, idx: usize, s: &str) -> (r: Result<(), LineError>)
        requires
            old(self)@.wf(),
        ensures
            final(self)@.wf(),
            effect(old(self)@, final(self)@, r, us_effect(old(self)@, idx, tokens(s@))),
    {
        match one_index(s) {
            Err(e) => Err(e),
            Ok(u) => from_integrity(self.env.add_level_succ(idx, u)),
        }
    }

    fn parse_um(&mut self, idx: usize, s: &str) -> (r: Result<(), LineError>)
        requires
            old(self)@.wf(),
        ensures
            final(self)@.wf(),
            effect(old(self)@, final(self)@, r, um_effect(old(self)@, idx, tokens(s@))),
    {
        match two_indices(s) {
            Err(e) => Err(e),
            Ok((u1, u2)) => from_integrity(self.env.add_level_max(idx, u1, u2)),
        }
    }

    fn parse_uim(&mut self, idx: usize, s: &str) -> (r: Result<(), LineError>)
        requires
            old(self)@.wf(),
        ensures
            final(self)@.wf(),
            effect(old(self)@, final(self)@, r, uim_effect(old(self)@, idx, tokens(s@))),
    {
        match two_indices(s) {
            Err(e) => Err(e),
            Ok((u1, u2)) => from_integrity(self.env.add_level_imax(idx, u1, u2)),
        }
    }

    fn parse_up(&mut self, idx: usize, s: &str) -> (r: Result<(), LineError>)
        requires
            old(self)@.wf(),
        ensures
            final(self)@.wf(),
            effect(old(self)@, final(self)@, r, up_effect(old(self)@, idx, tokens(s@))),
    {
        match one_index(s) {
            Err(e) => Err(e),
            Ok(n) => from_integrity(self.env.add_level_param(idx, n)),
        }
    }

    fn parse_es(&mut self, idx: usize, s: &str) -> (r: Result<(), LineError>)
        requires
            old(self)@.wf(),
        ensures
            final(self)@.wf(),
            effect(old(self)@, final(self)@, r, es_effect(old(self)@, idx, tokens(s@))),
    {
        match one_index(s) {
            Err(e) => Err(e),
            Ok(u) => from_integrity(self.env.add_expr_sort(idx, u)),
        }
    }

    fn parse_ev(&mut self, idx: usize, s: &str) -> (r: Result<(), LineError>)
        requires
            old(self)@.wf(),
        ensures
            final(self)@.wf(),
            effect(old(self)@, final(self)@, r, ev_effect(old(self)@, idx, tokens(s@))),
    {
        let ghost toks = tokens(s@);
        proof {
            assert(toks.subrange(0, toks.len() as int) =~= toks);
            lemma_step(s@, toks, 0);
        }
        let (i, rest) = match next_idx(s) {
            Some(x) => x,
            None => {
                return Err(LineError::Grammar(Expected::Integer));
            },
        };
        match check_eol(rest) {
            Err(e) => Err(e),
            Ok(()) => from_integrity(self.env.add_expr_bound_var(idx, i)),
        }
    }

    fn parse_ep(&mut self, idx: usize, s: &str) -> (r: Result<(), LineError>)
        requires
            old(self)@.wf(),
        ensures
            final(self)@.wf(),
            effect(old(self)@, final(self)@, r, ep_effect(old(self)@, idx, tokens(s@))),
    {
        match binder(s) {
            Err(e) => Err(e),
            Ok((info, nidx, eidx1, eidx2)) => from_integrity(
                self.env.add_expr_pi(idx, info, nidx, eidx1, eidx2),
            ),
        }
    }

    fn parse_el(&mut self, idx: usize, s: &str) -> (r: Result<(), LineError>)
        requires
            old(self)@.wf(),
        ensures
            final(self)@.wf(),
            effect(old(self)@, final(self)@, r, el_effect(old(self)@, idx, tokens(s@))),
    {
        match binder(s) {
            Err(e) => Err(e),
            Ok((info, nidx, eidx1, eidx2)) => from_integrity(
                self.env.add_expr_lambda(idx, info, nidx, eidx1, eidx2),
            ),
        }
    }

    fn parse_ec(&mut self, idx: usize, s: &str) -> (r: Result<(), LineError>)
        requires
            old(self)@.wf(),
        ensures
            final(self)@.wf(),
            effect(old(self)@, final(self)@, r, ec_effect(old(self)@, idx, tokens(s@))),
    {
        let ghost toks = tokens(s@);
        proof {
            assert(toks.subrange(0, toks.len() as int) =~= toks);
            lemma_step(s@, toks, 0);
        }
        let (nidx, rest) = match next_idx(s) {
            Some(x) => x,
            None => {
                return Err(LineError::Grammar(Expected::Index));
            },
        };
        proof {
            assert(toks.drop_first() =~= toks.subrange(1, toks.len() as int));
        }
        match indices(rest) {
            Err(e) => Err(e),
            Ok(level_idxs) => from_integrity(self.env.add_expr_constant(idx, nidx, level_idxs)),
        }
    }

    fn parse_ea(&mut self, idx: usize, s: &str) -> (r: Result<(), LineError>)
        requires
            old(self)@.wf(),
        ensures
            final(self)@.wf(),
            effect(old(self)@, final(self)@, r, ea_effect(old(self)@, idx, tokens(s@))),
    {
        match two_indices(s) {
            Err(e) => Err(e),
            Ok((eidx1, eidx2)) => from_integrity(self.env.add_expr_funappl(idx, eidx1, eidx2)),
        }
    }

    fn parse_def(&mut self, s: &str) -> (r: Result<usize, LineError>)
        requires
            old(self)@.wf(),
        ensures
            final(self)@.wf(),
            effect(old(self)@, final(self)@, r, def_effect(old(self)@, tokens(s@))),
            r matches Ok(n) ==> field(tokens(s@), 0) == Some(n),
    {
        let ghost toks = tokens(s@);
        proof {
            assert(toks.subrange(0, toks.len() as int) =~= toks);
            lemma_step(s@, toks, 0);
        }
        let (nidx, rest) = match next_idx(s) {
            Some(x) => x,
            None => {
                return Err(LineError::Grammar(Expected::Index));
            },
        };
        proof {
            lemma_step(rest@, toks, 1);
        }
        let (eidx1, rest) = match next_idx(rest) {
            Some(x) => x,
            None => {
                return Err(LineError::Grammar(Expected::Index));
            },
        };
        proof {
            lemma_step(rest@, toks, 2);
        }
        let (eidx2, rest) = match next_idx(rest) {
            Some(x) => x,
            None => {
                return Err(LineError::Grammar(Expected::Index));
            },
        };
        match indices(rest) {
            Err(e) => Err(e),
            Ok(level_nidxs) => match self.env.add_definition(nidx, eidx1, eidx2, level_nidxs) {
                Ok(()) => Ok(nidx),
                Err(e) => Err(LineError::Integrity(e)),
            },
        }
    }

    fn parse_ind(&mut self, s: &str) -> (r: Result<usize, LineError>)
        requires
            old(self)@.wf(),
        ensures
            final(self)@.wf(),
            effect(old(self)@, final(self)@, r, ind_effect(old(self)@, tokens(s@))),
            r matches Ok(n) ==> field(tokens(s@), 1) == Some(n),
    {
        let ghost toks = tokens(s@);
        proof {
            assert(toks.subrange(0, toks.len() as int) =~= toks);
            lemma_step(s@, toks, 0);
        }
        let (num, rest) = match next_idx(s) {
            Some(x) => x,
            None => {
                return Err(LineError::Grammar(Expected::Number));
            },
        };
        proof {
            lemma_step(rest@, toks, 1);
        }
        let (nidx, rest) = match next_idx(rest) {
            Some(x) => x,
            None => {
                return Err(LineError::Grammar(Expected::Index));
            },
        };
        proof {
            lemma_step(rest@, toks, 2);
        }
        let (eidx, rest) = match next_idx(rest) {
            Some(x) => x,
            None => {
                return Err(LineError::Grammar(Expected::Index));
            },
        };
        proof {
            lemma_step(rest@, toks, 3);
        }
        let (num_intros, rest) = match next_idx(rest) {
            Some(x) => x,
            None => {
                return Err(LineError::Grammar(Expected::Number));
            },
        };
        let mut rest = rest;
        let mut intros: Vec<(usize, usize)> = Vec::new();
        let mut j: usize = 0;
        while j < num_intros
            invariant
                self@ == old(self)@,
                self@.wf(),
                toks == tokens(s@),
                j <= num_intros,
                field(toks, 0) == Some(num),
                field(toks, 1) == Some(nidx),
                field(toks, 2) == Some(eidx),
                field(toks, 3) == Some(num_intros),
                4 + 2 * j <= toks.len(),
                tokens(rest@) == toks.subrange(4 + 2 * j, toks.len() as int),
                forall|p: int| 4 <= p < 4 + 2 * j ==> #[trigger] field(toks, p) is Some,
                intros@ =~= intros_of(toks, j),
            decreases num_intros - j,
        {
            proof {
                lemma_step(rest@, toks, 4 + 2 * j);
            }
            let (ni, r) = match next_idx(rest) {
                Some(x) => x,
                None => {
                    proof {
                        assert(field(toks, 4 + 2 * j) is None);
                    }
                    return Err(LineError::Grammar(Expected::Index));
                },
            };
            proof {
                lemma_step(r@, toks, 5 + 2 * j);
            }
            let (ei, r) = match next_idx(r) {
                Some(x) => x,
                None => {
                    proof {
                        assert(field(toks, 5 + 2 * j) is None);
                    }
                    return Err(LineError::Grammar(Expected::Index));
                },
            };
            intros.push((ni, ei));
            rest = r;
            j = j + 1;
            proof {
                assert forall|p: int| 4 <= p < 4 + 2 * j implies #[trigger] field(toks, p) is Some by {
                    if p == 4 + 2 * (j - 1) || p == 5 + 2 * (j - 1) {
                    } else {
                        assert(4 <= p < 4 + 2 * (j - 1));
                    }
                }
            }
        }
        proof {
            assert(!(exists|p: int| 4 <= p < 4 + 2 * num_intros && #[trigger] field(toks, p) is None));
        }
        match indices(rest) {
            Err(e) => Err(e),
            Ok(level_nidxs) => match self.env.add_inductive(num, nidx, eidx, intros, level_nidxs) {
                Ok(()) => Ok(nidx),
                Err(e) => Err(LineError::Integrity(e)),
            },
        }
    }

    fn parse_index_command(&mut self, idx: usize, s: &str) -> (r: Result<Added, LineError>)
        requires
            old(self)@.wf(),
        ensures
            final(self)@.wf(),
            effect(old(self)@, final(self)@, r, index_command_effect(old(self)@, idx, tokens(s@))),
            r matches Ok(a) ==> tokens(s@).len() > 0 && a == match index_tag_of(tokens(s@)[0]) {
                Some(IndexTag::Ni) | Some(IndexTag::Ns) => Added::Name(idx),
                Some(IndexTag::Us) | Some(IndexTag::Um) | Some(IndexTag::Uim) | Some(
                    IndexTag::Up,
                ) => Added::Level(idx),
                _ => Added::Expr(idx),
            },
    {
        proof {
            lemma_tokens_first(s@);
        }
        let (cmd, rest) = match next(s) {
            Some(x) => x,
            None => {
                return Err(LineError::Grammar(Expected::IndexCommand));
            },
        };
        let tag = index_tag(cmd);
        let r = match tag {
            Some(IndexTag::Ni) => self.parse_ni(idx, rest),
            Some(IndexTag::Ns) => self.parse_ns(idx, rest),
            Some(IndexTag::Us) => self.parse_us(idx, rest),
            Some(IndexTag::Um) => self.parse_um(idx, rest),
            Some(IndexTag::Uim) => self.parse_uim(idx, rest),
            Some(IndexTag::Up) => self.parse_up(idx, rest),
            Some(IndexTag::Es) => self.parse_es(idx, rest),
            Some(IndexTag::Ev) => self.parse_ev(idx, rest),
            Some(IndexTag::Ep) => self.parse_ep(idx, rest),
            Some(IndexTag::El) => self.parse_el(idx, rest),
            Some(IndexTag::Ec) => self.parse_ec(idx, rest),
            Some(IndexTag::Ea) => self.parse_ea(idx, rest),
            Some(tag) => Err(LineError::UnsupportedIndexCommand(tag)),
            None => Err(LineError::UnknownIndexCommand),
        };
        match r {
            Err(e) => Err(e),
            Ok(()) => Ok(
                match tag {
                    Some(IndexTag::Ni) | Some(IndexTag::Ns) => Added::Name(idx),
                    Some(IndexTag::Us) | Some(IndexTag::Um) | Some(IndexTag::Uim) | Some(
                        IndexTag::Up,
                    ) => Added::Level(idx),
                    _ => Added::Expr(idx),
                },
            ),
        }
    }

    fn parse_command(&mut self, cmd: &str, rest: &str) -> (r: Result<Added, LineError>)
        requires
            old(self)@.wf(),
        ensures
            final(self)@.wf(),
            effect(old(self)@, final(self)@, r, command_effect(old(self)@, cmd@, tokens(rest@))),
            r matches Ok(a) ==> a == match command_tag_of(cmd@) {
                Some(CommandTag::Def) => Added::Decl(field(tokens(rest@), 0)->0),
                _ => Added::Decl(field(tokens(rest@), 1)->0),
            },
    {
        match command_tag(cmd) {
            Some(CommandTag::Def) => match self.parse_def(rest) {
                Ok(n) => Ok(Added::Decl(n)),
                Err(e) => Err(e),
            },
            Some(CommandTag::Ind) => match self.parse_ind(rest) {
                Ok(n) => Ok(Added::Decl(n)),
                Err(e) => Err(e),
            },
            Some(tag) => Err(LineError::UnsupportedCommand(tag)),
            None => Err(LineError::UnknownCommand),
        }
    }

    /// Applies one line to the arena, in whole or not at all, and tells
    /// which entity it added.
    pub fn parse_line(&mut self, line: &str) -> (r: Result<Added, LineError>)
        requires
            old(self)@.wf(),
        ensures
            final(self)@.wf(),
            effect(old(self)@, final(self)@, r, line_effect(old(self)@, line@)),
            r matches Ok(a) ==> a == line_added(line@),
    {
        proof {
            lemma_tokens_first(line@);
        }
        let (first, rest) = match next(line) {
            Some(x) => x,
            None => {
                return Err(LineError::Grammar(Expected::IndexOrCommand));
            },
        };
        match parse_index(first) {
            Some(idx) => self.parse_index_command(idx, rest),
            None => self.parse_command(first, rest),
        }
    }

    /// The arena built so far, to read.
    pub fn environment(&self) -> (r: &Environment)
        ensures
            r@ == self@,
    {
        &self.env
    }

    /// The arena built so far.
    pub fn get_environment(self) -> (r: Environment)
        ensures
            r@ == self@,
    {
        self.env
    }
}

} // verus!

//! The term arena: four index-keyed tables of names, universe levels,
//! expressions and declarations, which only grow, and whose entries only
//! refer to entries that were there before them.
use std::collections::HashMap;
use crate::text::{decimal, decimal_string, join, lemma_join_step};
use vstd::prelude::*;

verus! {

broadcast use vstd::std_specs::hash::group_hash_axioms;

/// One segment of a hierarchical name.
#[derive(Debug)]
pub enum NameItem {
    Str(String),
    Int(usize),
}

/// A name: its last segment and the index of the name it extends, `0` for none.
#[derive(Debug)]
pub struct Name {
    pub item: NameItem,
    pub parent: usize,
}

/// A universe level; the indices refer to the level and name tables.
#[derive(Debug, PartialEq, Eq, Structural)]
pub enum Level {
    Zero,
    Succ(usize),
    Max(usize, usize),
    IMax(usize, usize),
    Param(usize),
}

/// How a binder is shown: `#BD`, `#BI`, `#BS` and `#BC` in the input.
#[derive(Debug, Clone, Copy, PartialEq, Eq, Structural)]
pub enum InfoAnnotation {
    Default,
    Implicit,
    StrictImplicit,
    InstImplicit,
}

/// An expression; a bound variable is a de Bruijn index, every other index
/// refers to the name, level or expression table.
#[derive(Debug)]
pub enum Expr {
    BoundVar(usize),
    Sort(usize),
    Constant(usize, Vec<usize>),
    FunAppl(usize, usize),
    Lambda(InfoAnnotation, usize, usize, usize),
    Pi(InfoAnnotation, usize, usize, usize),
}

/// A declaration, stored under the index of the name it declares.
#[derive(Debug)]
pub enum Decl {
    /// Type, body and universe parameter names.
    Def(usize, usize, Vec<usize>),
    /// Parameter count, type, constructors (name and type) and universe
    /// parameter names.
    Ind(usize, usize, Vec<(usize, usize)>, Vec<usize>),
}

/// Why an insertion was refused; the tables are then left as they were.
#[derive(Debug, Clone, Copy, PartialEq, Eq, Structural)]
pub enum IntegrityError {
    /// The index is taken in its table.
    Occupied,
    /// Name index `0` means "no parent" and holds no name.
    Reserved,
    /// A referenced index is not in its table.
    Missing,
}

/// A printed entity is not in its table.
#[derive(Debug, Clone, Copy, PartialEq, Eq, Structural)]
pub struct NotFoundError;

/// What a name segment holds.
pub enum Segment {
    Str(Seq<char>),
    Int(usize),
}

/// What a stored name holds.
pub struct NameView {
    pub item: Segment,
    pub parent: usize,
}

/// What a stored expression holds.
pub enum ExprView {
    BoundVar(usize),
    Sort(usize),
    Constant(usize, Seq<usize>),
    FunAppl(usize, usize),
    Lambda(InfoAnnotation, usize, usize, usize),
    Pi(InfoAnnotation, usize, usize, usize),
}

/// What a stored declaration holds.
pub enum DeclView {
    Def(usize, usize, Seq<usize>),
    Ind(usize, usize, Seq<(usize, usize)>, Seq<usize>),
}

impl View for NameItem {
    type V = Segment;

    open spec fn view(&self) -> Segment {
        match self {
            NameItem::Str(s) => Segment::Str(s@),
            NameItem::Int(i) => Segment::Int(*i),
        }
    }
}

impl View for Name {
    type V = NameView;

    open spec fn view(&self) -> NameView {
        NameView { item: self.item@, parent: self.parent }
    }
}

impl View for Expr {
    type V = ExprView;

    open spec fn view(&self) -> ExprView {
        match self {
            Expr::BoundVar(i) => ExprView::BoundVar(*i),
            Expr::Sort(u) => ExprView::Sort(*u),
            Expr::Constant(n, ls) => ExprView::Constant(*n, ls@),
            Expr::FunAppl(f, a) => ExprView::FunAppl(*f, *a),
            Expr::Lambda(info, n, d, b) => ExprView::Lambda(*info, *n, *d, *b),
            Expr::Pi(info, n, d, b) => ExprView::Pi(*info, *n, *d, *b),
        }
    }
}

impl View for Decl {
    type V = DeclView;

    open spec fn view(&self) -> DeclView {
        match self {
            Decl::Def(t, b, ps) => DeclView::Def(*t, *b, ps@),
            Decl::Ind(k, t, cs, ps) => DeclView::Ind(*k, *t, cs@, ps@),
        }
    }
}

/// The contents of the four tables.
pub struct EnvView {
    pub names: Map<usize, NameView>,
    pub levels: Map<usize, Level>,
    pub exprs: Map<usize, ExprView>,
    pub decls: Map<usize, DeclView>,
}

/// Whether every `level` table index in `s` is present.
pub open spec fn all_levels(v: EnvView, s: Seq<usize>) -> bool {
    forall|j: int| 0 <= j < s.len() ==> v.levels.contains_key(#[trigger] s[j])
}

/// Whether every name index in `s` is present.
pub open spec fn all_names(v: EnvView, s: Seq<usize>) -> bool {
    forall|j: int| 0 <= j < s.len() ==> v.names.contains_key(#[trigger] s[j])
}

/// Whether every constructor of `s` names a present name and expression.
pub open spec fn all_intros(v: EnvView, s: Seq<(usize, usize)>) -> bool {
    forall|j: int|
        0 <= j < s.len() ==> v.names.contains_key((#[trigger] s[j]).0) && v.exprs.contains_key(
            s[j].1,
        )
}

/// What an insertion leaves behind: on `Ok` the new tables, on `Err` the
/// error with the tables unchanged.
pub open spec fn outcome(
    before: EnvView,
    after: EnvView,
    r: Result<(), IntegrityError>,
    expected: Result<EnvView, IntegrityError>,
) -> bool {
    match expected {
        Ok(v) => r is Ok && after == v,
        Err(e) => r == Err::<(), IntegrityError>(e) && after == before,
    }
}

/// The text of a name segment; a number is written in decimal.
pub open spec fn item_text(item: Segment) -> Seq<char> {
    match item {
        Segment::Str(s) => s,
        Segment::Int(i) => decimal(i as nat),
    }
}

/// What a bound variable that no binder encloses is printed as.
pub open spec fn placeholder(i: usize) -> Seq<char> {
    "<"@ + decimal(i as nat) + ">"@
}

/// The delimiter that opens a binder of the given kind.
pub open spec fn open_delim(info: InfoAnnotation) -> Seq<char> {
    match info {
        InfoAnnotation::Default => "("@,
        InfoAnnotation::Implicit => "{"@,
        InfoAnnotation::StrictImplicit => "{{"@,
        InfoAnnotation::InstImplicit => "["@,
    }
}

/// The delimiter that closes a binder of the given kind.
pub open spec fn close_delim(info: InfoAnnotation) -> Seq<char> {
    match info {
        InfoAnnotation::Default => ")"@,
        InfoAnnotation::Implicit => "}"@,
        InfoAnnotation::StrictImplicit => "}}"@,
        InfoAnnotation::InstImplicit => "]"@,
    }
}

/// The texts held by a stack of binder names.
pub open spec fn stack_view(s: Seq<String>) -> Seq<Seq<char>> {
    s.map_values(|x: String| x@)
}

impl EnvView {
    /// The tables of a new arena: only level `0`, which is `Zero`.
    pub open spec fn initial() -> EnvView {
        EnvView {
            names: Map::empty(),
            levels: map![0usize => Level::Zero],
            exprs: Map::empty(),
            decls: Map::empty(),
        }
    }

    /// These tables with name `n` at `idx`.
    pub open spec fn with_name(self, idx: usize, n: NameView) -> EnvView {
        EnvView { names: self.names.insert(idx, n), ..self }
    }

    /// These tables with level `l` at `idx`.
    pub open spec fn with_level(self, idx: usize, l: Level) -> EnvView {
        EnvView { levels: self.levels.insert(idx, l), ..self }
    }

    /// These tables with expression `e` at `idx`.
    pub open spec fn with_expr(self, idx: usize, e: ExprView) -> EnvView {
        EnvView { exprs: self.exprs.insert(idx, e), ..self }
    }

    /// These tables with declaration `d` at `idx`.
    pub open spec fn with_decl(self, idx: usize, d: DeclView) -> EnvView {
        EnvView { decls: self.decls.insert(idx, d), ..self }
    }

    /// Every reference held by a name resolves.
    pub open spec fn names_closed(self) -> bool {
        forall|i: usize|
            #[trigger] self.names.contains_key(i) ==> i != 0 && (self.names[i].parent == 0
                || self.names.contains_key(self.names[i].parent))
    }

    /// Every index that level `l` refers to is present.
    pub open spec fn level_refs_present(self, l: Level) -> bool {
        match l {
            Level::Zero => true,
            Level::Succ(a) => self.levels.contains_key(a),
            Level::Max(a, b) => self.levels.contains_key(a) && self.levels.contains_key(b),
            Level::IMax(a, b) => self.levels.contains_key(a) && self.levels.contains_key(b),
            Level::Param(n) => self.names.contains_key(n),
        }
    }

    /// Every index that expression `e` refers to is present.
    pub open spec fn expr_refs_present(self, e: ExprView) -> bool {
        match e {
            ExprView::BoundVar(_) => true,
            ExprView::Sort(u) => self.levels.contains_key(u),
            ExprView::Constant(n, ls) => self.names.contains_key(n) && all_levels(self, ls),
            ExprView::FunAppl(f, a) => self.exprs.contains_key(f) && self.exprs.contains_key(a),
            ExprView::Lambda(_, n, d, b) => self.names.contains_key(n) && self.exprs.contains_key(d)
                && self.exprs.contains_key(b),
            ExprView::Pi(_, n, d, b) => self.names.contains_key(n) && self.exprs.contains_key(d)
                && self.exprs.contains_key(b),
        }
    }

    /// Every index that declaration `d` of the name at `idx` refers to is
    /// present, that name included.
    pub open spec fn decl_refs_present(self, idx: usize, d: DeclView) -> bool {
        self.names.contains_key(idx) && match d {
            DeclView::Def(t, b, ps) => self.exprs.contains_key(t) && self.exprs.contains_key(b)
                && all_names(self, ps),
            DeclView::Ind(_, t, cs, ps) => self.exprs.contains_key(t) && all_intros(self, cs)
                && all_names(self, ps),
        }
    }

    /// Every reference held by a level resolves.
    pub open spec fn levels_closed(self) -> bool {
        forall|i: usize| #[trigger]
            self.levels.contains_key(i) ==> self.level_refs_present(self.levels[i])
    }

    /// Every reference held by an expression resolves.
    pub open spec fn exprs_closed(self) -> bool {
        forall|i: usize| #[trigger]
            self.exprs.contains_key(i) ==> self.expr_refs_present(self.exprs[i])
    }

    /// Every reference held by a declaration resolves, its own name included.
    pub open spec fn decls_closed(self) -> bool {
        forall|i: usize| #[trigger]
            self.decls.contains_key(i) ==> self.decl_refs_present(i, self.decls[i])
    }

    /// `r` ranks the names so that a parent ranks below its children.
    pub open spec fn name_ranking(self, r: Map<usize, nat>) -> bool {
        forall|i: usize| #[trigger]
            self.names.contains_key(i) && self.names[i].parent != 0 ==> r[self.names[i].parent]
                < r[i]
    }

    /// `r` ranks the levels so that an operand ranks below the level using it.
    pub open spec fn level_ranking(self, r: Map<usize, nat>) -> bool {
        forall|i: usize| #[trigger]
            self.levels.contains_key(i) ==> match self.levels[i] {
                Level::Succ(a) => r[a] < r[i],
                Level::Max(a, b) => r[a] < r[i] && r[b] < r[i],
                Level::IMax(a, b) => r[a] < r[i] && r[b] < r[i],
                _ => true,
            }
    }

    /// `r` ranks the expressions so that a subexpression ranks below the
    /// expression holding it.
    pub open spec fn expr_ranking(self, r: Map<usize, nat>) -> bool {
        forall|i: usize| #[trigger]
            self.exprs.contains_key(i) ==> match self.exprs[i] {
                ExprView::FunAppl(f, a) => r[f] < r[i] && r[a] < r[i],
                ExprView::Lambda(_, _, d, b) => r[d] < r[i] && r[b] < r[i],
                ExprView::Pi(_, _, d, b) => r[d] < r[i] && r[b] < r[i],
                _ => true,
            }
    }

    /// Following parents from any name ends.
    pub open spec fn names_ordered(self) -> bool {
        exists|r: Map<usize, nat>| self.name_ranking(r)
    }

    /// Following operands from any level ends.
    pub open spec fn levels_ordered(self) -> bool {
        exists|r: Map<usize, nat>| self.level_ranking(r)
    }

    /// Following subexpressions from any expression ends.
    pub open spec fn exprs_ordered(self) -> bool {
        exists|r: Map<usize, nat>| self.expr_ranking(r)
    }

    /// A ranking of the names, where there is one.
    pub open spec fn name_rank(self) -> Map<usize, nat> {
        choose|r: Map<usize, nat>| self.name_ranking(r)
    }

    /// A ranking of the levels, where there is one.
    pub open spec fn level_rank(self) -> Map<usize, nat> {
        choose|r: Map<usize, nat>| self.level_ranking(r)
    }

    /// A ranking of the expressions, where there is one.
    pub open spec fn expr_rank(self) -> Map<usize, nat> {
        choose|r: Map<usize, nat>| self.expr_ranking(r)
    }

    /// The tables are well formed: level `0` is `Zero`, every reference
    /// resolves, and following references always ends.
    pub open spec fn wf(self) -> bool {
        &&& self.levels.contains_key(0)
        &&& self.levels[0] == Level::Zero
        &&& self.names_closed()
        &&& self.levels_closed()
        &&& self.exprs_closed()
        &&& self.decls_closed()
        &&& self.names_ordered()
        &&& self.levels_ordered()
        &&& self.exprs_ordered()
    }

    /// The dotted text of the name at `idx`: its segments from the root on.
    pub open spec fn name_text(self, idx: usize) -> Seq<char>
        decreases self.name_rank()[idx],
        when self.names_ordered()
    {
        if self.names.contains_key(idx) {
            let n = self.names[idx];
            if n.parent == 0 {
                item_text(n.item)
            } else {
                self.name_text(n.parent) + "."@ + item_text(n.item)
            }
        } else {
            Seq::empty()
        }
    }

    /// The text of the level at `idx`.
    pub open spec fn level_text(self, idx: usize) -> Seq<char>
        decreases self.level_rank()[idx],
        when self.levels_ordered()
    {
        if self.levels.contains_key(idx) {
            match self.levels[idx] {
                Level::Zero => "0"@,
                Level::Succ(a) => "(succ "@ + self.level_text(a) + ")"@,
                Level::Max(a, b) => "(max "@ + self.level_text(a) + " "@ + self.level_text(b)
                    + ")"@,
                Level::IMax(a, b) => "(imax "@ + self.level_text(a) + " "@ + self.level_text(b)
                    + ")"@,
                Level::Param(n) => self.name_text(n),
            }
        } else {
            Seq::empty()
        }
    }

    /// The texts of the levels `ls`, comma-separated.
    pub open spec fn levels_text(self, ls: Seq<usize>) -> Seq<char> {
        join(ls.map_values(|l: usize| self.level_text(l)), ","@)
    }

    /// The texts of the names `ns`, comma-separated.
    pub open spec fn names_text(self, ns: Seq<usize>) -> Seq<char> {
        join(ns.map_values(|n: usize| self.name_text(n)), ","@)
    }

    /// The text of the expression at `idx`, where `stack` holds the names of
    /// the enclosing binders, innermost last.
    pub open spec fn expr_text(self, idx: usize, stack: Seq<Seq<char>>) -> Seq<char>
        decreases self.expr_rank()[idx],
        when self.exprs_ordered()
    {
        if self.exprs.contains_key(idx) {
            match self.exprs[idx] {
                ExprView::Sort(u) => "Sort "@ + self.level_text(u),
                ExprView::BoundVar(i) => if i < stack.len() {
                    stack[stack.len() - 1 - i]
                } else {
                    placeholder(i)
                },
                ExprView::Constant(n, ls) => if ls.len() == 0 {
                    self.name_text(n)
                } else {
                    self.name_text(n) + ".{"@ + self.levels_text(ls) + "}"@
                },
                ExprView::FunAppl(f, a) => "("@ + self.expr_text(f, stack) + " "@ + self.expr_text(
                    a,
                    stack,
                ) + ")"@,
                ExprView::Lambda(info, n, d, b) => open_delim(info) + self.name_text(n) + " : "@
                    + self.expr_text(d, stack) + close_delim(info) + ", "@ + self.expr_text(
                    b,
                    stack.push(self.name_text(n)),
                ),
                ExprView::Pi(info, n, d, b) => open_delim(info) + self.name_text(n) + " : "@
                    + self.expr_text(d, stack) + close_delim(info) + ", "@ + self.expr_text(
                    b,
                    stack.push(self.name_text(n)),
                ),
            }
        } else {
            Seq::empty()
        }
    }

    /// The line of constructor `c` of an inductive type.
    pub open spec fn intro_text(self, c: (usize, usize)) -> Seq<char> {
        "\n| "@ + self.name_text(c.0) + " : "@ + self.expr_text(c.1, Seq::empty())
    }

    /// The text of the declaration of the name at `idx`.
    pub open spec fn decl_text(self, idx: usize) -> Seq<char> {
        let name = self.name_text(idx);
        match self.decls[idx] {
            DeclView::Def(t, b, ps) => "definition "@ + name + (if ps.len() == 0 {
                Seq::empty()
            } else {
                ".{"@ + self.names_text(ps) + "}"@
            }) + " "@ + self.expr_text(t, Seq::empty()) + " := "@ + self.expr_text(
                b,
                Seq::empty(),
            ),
            DeclView::Ind(_, t, cs, ps) => "inductive "@ + name + (if ps.len() == 0 {
                Seq::empty()
            } else {
                " {"@ + self.names_text(ps) + "}"@
            }) + " "@ + self.expr_text(t, Seq::empty()) + join(
                cs.map_values(|c: (usize, usize)| self.intro_text(c)),
                " "@,
            ),
        }
    }

    /// Adding a name segment `item` under `parent` at `idx`.
    pub open spec fn add_name(self, idx: usize, item: Segment, parent: usize) -> Result<
        EnvView,
        IntegrityError,
    > {
        if idx == 0 {
            Err(IntegrityError::Reserved)
        } else if self.names.contains_key(idx) {
            Err(IntegrityError::Occupied)
        } else if parent != 0 && !self.names.contains_key(parent) {
            Err(IntegrityError::Missing)
        } else {
            Ok(self.with_name(idx, NameView { item, parent }))
        }
    }

    /// Adding level `l` at `idx`.
    pub open spec fn add_level(self, idx: usize, l: Level) -> Result<EnvView, IntegrityError> {
        if self.levels.contains_key(idx) {
            Err(IntegrityError::Occupied)
        } else if !self.level_refs_present(l) {
            Err(IntegrityError::Missing)
        } else {
            Ok(self.with_level(idx, l))
        }
    }

    /// Adding expression `e` at `idx`.
    pub open spec fn add_expr(self, idx: usize, e: ExprView) -> Result<EnvView, IntegrityError> {
        if self.exprs.contains_key(idx) {
            Err(IntegrityError::Occupied)
        } else if !self.expr_refs_present(e) {
            Err(IntegrityError::Missing)
        } else {
            Ok(self.with_expr(idx, e))
        }
    }

    /// Adding declaration `d` of the name at `idx`.
    pub open spec fn add_decl(self, idx: usize, d: DeclView) -> Result<EnvView, IntegrityError> {
        if self.decls.contains_key(idx) {
            Err(IntegrityError::Occupied)
        } else if !self.decl_refs_present(idx, d) {
            Err(IntegrityError::Missing)
        } else {
            Ok(self.with_decl(idx, d))
        }
    }
}

impl NameItem {
    /// The text of this segment.
    pub fn to_text(&self) -> (r: String)
        ensures
            r@ == item_text(self@),
    {
        match self {
            NameItem::Str(s) => s.clone(),
            NameItem::Int(i) => decimal_string(*i),
        }
    }
}

impl InfoAnnotation {
    /// The opening and closing delimiters of a binder of this kind.
    pub fn to_delims(&self) -> (r: (&'static str, &'static str))
        ensures
            r.0@ == open_delim(*self),
            r.1@ == close_delim(*self),
    {
        match self {
            InfoAnnotation::Default => ("(", ")"),
            InfoAnnotation::Implicit => ("{", "}"),
            InfoAnnotation::StrictImplicit => ("{{", "}}"),
            InfoAnnotation::InstImplicit => ("[", "]"),
        }
    }
}

/// The term arena.
pub struct Environment {
    names: HashMap<usize, Name>,
    levels: HashMap<usize, Level>,
    exprs: HashMap<usize, Expr>,
    decls: HashMap<usize, Decl>,
}

impl View for Environment {
    type V = EnvView;

    closed spec fn view(&self) -> EnvView {
        EnvView {
            names: self.names@.map_values(|n: Name| n@),
            levels: self.levels@,
            exprs: self.exprs@.map_values(|e: Expr| e@),
            decls: self.decls@.map_values(|d: Decl| d@),
        }
    }
}

impl Environment {
    /// An arena that holds only level `0`, which is `Zero`.
    pub fn new() -> (r: Self)
        ensures
            r@ == EnvView::initial(),
            r@.wf(),
    {
        let mut levels: HashMap<usize, Level> = HashMap::new();
        levels.insert(0, Level::Zero);
        let r = Environment {
            names: HashMap::new(),
            levels,
            exprs: HashMap::new(),
            decls: HashMap::new(),
        };
        proof {
            let v = r@;
            assert(v.names =~= EnvView::initial().names);
            assert(v.levels =~= EnvView::initial().levels);
            assert(v.exprs =~= EnvView::initial().exprs);
            assert(v.decls =~= EnvView::initial().decls);
            assert(v.name_ranking(Map::empty()));
            assert(v.level_ranking(Map::empty()));
            assert(v.expr_ranking(Map::empty()));
        }
        r
    }

    fn has_name(&self, idx: usize) -> (r: bool)
        ensures
            r == self@.names.contains_key(idx),
    {
        self.names.contains_key(&idx)
    }

    fn has_level(&self, idx: usize) -> (r: bool)
        ensures
            r == self@.levels.contains_key(idx),
    {
        self.levels.contains_key(&idx)
    }

    fn has_expr(&self, idx: usize) -> (r: bool)
        ensures
            r == self@.exprs.contains_key(idx),
    {
        self.exprs.contains_key(&idx)
    }

    fn has_levels(&self, s: &Vec<usize>) -> (r: bool)
        ensures
            r == all_levels(self@, s@),
    {
        let mut i: usize = 0;
        while i < s.len()
            invariant
                i <= s@.len(),
                forall|j: int| 0 <= j < i ==> self@.levels.contains_key(#[trigger] s@[j]),
            decreases s@.len() - i,
        {
            if !self.has_level(s[i]) {
                return false;
            }
            i = i + 1;
        }
        true
    }

    fn has_names(&self, s: &Vec<usize>) -> (r: bool)
        ensures
            r == all_names(self@, s@),
    {
        let mut i: usize = 0;
        while i < s.len()
            invariant
                i <= s@.len(),
                forall|j: int| 0 <= j < i ==> self@.names.contains_key(#[trigger] s@[j]),
            decreases s@.len() - i,
        {
            if !self.has_name(s[i]) {
                return false;
            }
            i = i + 1;
        }
        true
    }

    fn has_intros(&self, s: &Vec<(usize, usize)>) -> (r: bool)
        ensures
            r == all_intros(self@, s@),
    {
        let mut i: usize = 0;
        while i < s.len()
            invariant
                i <= s@.len(),
                forall|j: int|
                    0 <= j < i ==> self@.names.contains_key((#[trigger] s@[j]).0)
                        && self@.exprs.contains_key(s@[j].1),
            decreases s@.len() - i,
        {
            let (n, e) = s[i];
            if !self.has_name(n) || !self.has_expr(e) {
                return false;
            }
            i = i + 1;
        }
        true
    }

    /// Adds the name with last segment `item` under `parent` (`0`: none) at `idx`.
    pub fn add_name(&mut self, idx: usize, item: NameItem, parent: usize) -> (r: Result<
        (),
        IntegrityError,
    >)
        requires
            old(self)@.wf(),
        ensures
            final(self)@.wf(),
            outcome(old(self)@, final(self)@, r, old(self)@.add_name(idx, item@, parent)),
    {
        if idx == 0 {
            return Err(IntegrityError::Reserved);
        }
        if self.has_name(idx) {
            return Err(IntegrityError::Occupied);
        }
        if parent != 0 && !self.has_name(parent) {
            return Err(IntegrityError::Missing);
        }
        proof {
            lemma_add_name_wf(self@, idx, item@, parent);
        }
        let n = Name { item, parent };
        let ghost nv = n@;
        self.names.insert(idx, n);
        proof {
            assert(self@.names =~= old(self)@.names.insert(idx, nv));
        }
        Ok(())
    }

    fn insert_level(&mut self, idx: usize, l: Level) -> (r: Result<(), IntegrityError>)
        requires
            old(self)@.wf(),
        ensures
            final(self)@.wf(),
            outcome(old(self)@, final(self)@, r, old(self)@.add_level(idx, l)),
    {
        if self.has_level(idx) {
            return Err(IntegrityError::Occupied);
        }
        let present = match l {
            Level::Zero => true,
            Level::Succ(a) => self.has_level(a),
            Level::Max(a, b) => self.has_level(a) && self.has_level(b),
            Level::IMax(a, b) => self.has_level(a) && self.has_level(b),
            Level::Param(n) => self.has_name(n),
        };
        if !present {
            return Err(IntegrityError::Missing);
        }
        proof {
            lemma_add_level_wf(self@, idx, l);
        }
        self.levels.insert(idx, l);
        Ok(())
    }

    /// Adds the level `Succ(uidx)` at `uidxp`.
    pub fn add_level_succ(&mut self, uidxp: usize, uidx: usize) -> (r: Result<(), IntegrityError>)
        requires
            old(self)@.wf(),
        ensures
            final(self)@.wf(),
            outcome(old(self)@, final(self)@, r, old(self)@.add_level(uidxp, Level::Succ(uidx))),
    {
        self.insert_level(uidxp, Level::Succ(uidx))
    }

    /// Adds the level `Max(uidx1, uidx2)` at `uidxp`.
    pub fn add_level_max(&mut self, uidxp: usize, uidx1: usize, uidx2: usize) -> (r: Result<
        (),
        IntegrityError,
    >)
        requires
            old(self)@.wf(),
        ensures
            final(self)@.wf(),
            outcome(
                old(self)@,
                final(self)@,
                r,
                old(self)@.add_level(uidxp, Level::Max(uidx1, uidx2)),
            ),
    {
        self.insert_level(uidxp, Level::Max(uidx1, uidx2))
    }

    /// Adds the level `IMax(uidx1, uidx2)` at `uidxp`.
    pub fn add_level_imax(&mut self, uidxp: usize, uidx1: usize, uidx2: usize) -> (r: Result<
        (),
        IntegrityError,
    >)
        requires
            old(self)@.wf(),
        ensures
            final(self)@.wf(),
            outcome(
                old(self)@,
                final(self)@,
                r,
                old(self)@.add_level(uidxp, Level::IMax(uidx1, uidx2)),
            ),
    {
        self.insert_level(uidxp, Level::IMax(uidx1, uidx2))
    }

    /// Adds the level `Param(nidx)` at `uidxp`.
    pub fn add_level_param(&mut self, uidxp: usize, nidx: usize) -> (r: Result<(), IntegrityError>)
        requires
            old(self)@.wf(),
        ensures
            final(self)@.wf(),
            outcome(old(self)@, final(self)@, r, old(self)@.add_level(uidxp, Level::Param(nidx))),
    {
        self.insert_level(uidxp, Level::Param(nidx))
    }

    fn insert_expr(&mut self, idx: usize, e: Expr) -> (r: Result<(), IntegrityError>)
        requires
            old(self)@.wf(),
        ensures
            final(self)@.wf(),
            outcome(old(self)@, final(self)@, r, old(self)@.add_expr(idx, e@)),
    {
        if self.has_expr(idx) {
            return Err(IntegrityError::Occupied);
        }
        let present = match &e {
            Expr::BoundVar(_) => true,
            Expr::Sort(u) => self.has_level(*u),
            Expr::Constant(n, ls) => self.has_name(*n) && self.has_levels(ls),
            Expr::FunAppl(f, a) => self.has_expr(*f) && self.has_expr(*a),
            Expr::Lambda(_, n, d, b) => self.has_name(*n) && self.has_expr(*d) && self.has_expr(*b),
            Expr::Pi(_, n, d, b) => self.has_name(*n) && self.has_expr(*d) && self.has_expr(*b),
        };
        if !present {
            return Err(IntegrityError::Missing);
        }
        proof {
            lemma_add_expr_wf(self@, idx, e@);
        }
        let ghost ev = e@;
        self.exprs.insert(idx, e);
        proof {
            assert(self@.exprs =~= old(self)@.exprs.insert(idx, ev));
        }
        Ok(())
    }

    /// Adds the expression `Sort(uidx)` at `eidxp`.
    pub fn add_expr_sort(&mut self, eidxp: usize, uidx: usize) -> (r: Result<(), IntegrityError>)
        requires
            old(self)@.wf(),
        ensures
            final(self)@.wf(),
            outcome(old(self)@, final(self)@, r, old(self)@.add_expr(eidxp, ExprView::Sort(uidx))),
    {
        self.insert_expr(eidxp, Expr::Sort(uidx))
    }

    /// Adds the bound variable with de Bruijn index `i` at `eidxp`.
    pub fn add_expr_bound_var(&mut self, eidxp: usize, i: usize) -> (r: Result<(), IntegrityError>)
        requires
            old(self)@.wf(),
        ensures
            final(self)@.wf(),
            outcome(old(self)@, final(self)@, r, old(self)@.add_expr(eidxp, ExprView::BoundVar(i))),
    {
        self.insert_expr(eidxp, Expr::BoundVar(i))
    }

    /// Adds the dependent function type binding `nidx`, with domain `eidx1`
    /// and codomain `eidx2`, at `eidxp`.
    pub fn add_expr_pi(
        &mut self,
        eidxp: usize,
        info: InfoAnnotation,
        nidx: usize,
        eidx1: usize,
        eidx2: usize,
    ) -> (r: Result<(), IntegrityError>)
        requires
            old(self)@.wf(),
        ensures
            final(self)@.wf(),
            outcome(
                old(self)@,
                final(self)@,
                r,
                old(self)@.add_expr(eidxp, ExprView::Pi(info, nidx, eidx1, eidx2)),
            ),
    {
        self.insert_expr(eidxp, Expr::Pi(info, nidx, eidx1, eidx2))
    }

    /// Adds the function binding `nidx`, with domain `eidx1` and body
    /// `eidx2`, at `eidxp`.
    pub fn add_expr_lambda(
        &mut self,
        eidxp: usize,
        info: InfoAnnotation,
        nidx: usize,
        eidx1: usize,
        eidx2: usize,
    ) -> (r: Result<(), IntegrityError>)
        requires
            old(self)@.wf(),
        ensures
            final(self)@.wf(),
            outcome(
                old(self)@,
                final(self)@,
                r,
                old(self)@.add_expr(eidxp, ExprView::Lambda(info, nidx, eidx1, eidx2)),
            ),
    {
        self.insert_expr(eidxp, Expr::Lambda(info, nidx, eidx1, eidx2))
    }

    /// Adds the constant `nidx` at universe levels `level_idxs` at `eidxp`.
    pub fn add_expr_constant(&mut self, eidxp: usize, nidx: usize, level_idxs: Vec<usize>) -> (r:
        Result<(), IntegrityError>)
        requires
            old(self)@.wf(),
        ensures
            final(self)@.wf(),
            outcome(
                old(self)@,
                final(self)@,
                r,
                old(self)@.add_expr(eidxp, ExprView::Constant(nidx, level_idxs@)),
            ),
    {
        self.insert_expr(eidxp, Expr::Constant(nidx, level_idxs))
    }

    /// Adds the application of `eidx1` to `eidx2` at `eidxp`.
    pub fn add_expr_funappl(&mut self, eidxp: usize, eidx1: usize, eidx2: usize) -> (r: Result<
        (),
        IntegrityError,
    >)
        requires
            old(self)@.wf(),
        ensures
            final(self)@.wf(),
            outcome(
                old(self)@,
                final(self)@,
                r,
                old(self)@.add_expr(eidxp, ExprView::FunAppl(eidx1, eidx2)),
            ),
    {
        self.insert_expr(eidxp, Expr::FunAppl(eidx1, eidx2))
    }

    fn insert_decl(&mut self, nidx: usize, d: Decl) -> (r: Result<(), IntegrityError>)
        requires
            old(self)@.wf(),
        ensures
            final(self)@.wf(),
            outcome(old(self)@, final(self)@, r, old(self)@.add_decl(nidx, d@)),
    {
        if self.decls.contains_key(&nidx) {
            return Err(IntegrityError::Occupied);
        }
        let present = self.has_name(nidx) && match &d {
            Decl::Def(t, b, ps) => self.has_expr(*t) && self.has_expr(*b) && self.has_names(ps),
            Decl::Ind(_, t, cs, ps) => self.has_expr(*t) && self.has_intros(cs) && self.has_names(
                ps,
            ),
        };
        if !present {
            return Err(IntegrityError::Missing);
        }
        proof {
            lemma_add_decl_wf(self@, nidx, d@);
        }
        let ghost dv = d@;
        self.decls.insert(nidx, d);
        proof {
            assert(self@.decls =~= old(self)@.decls.insert(nidx, dv));
        }
        Ok(())
    }

    /// Declares the name `nidx` as a definition with type `eidx1`, body
    /// `eidx2` and universe parameters `level_names`.
    pub fn add_definition(
        &mut self,
        nidx: usize,
        eidx1: usize,
        eidx2: usize,
        level_names: Vec<usize>,
    ) -> (r: Result<(), IntegrityError>)
        requires
            old(self)@.wf(),
        ensures
            final(self)@.wf(),
            outcome(
                old(self)@,
                final(self)@,
                r,
                old(self)@.add_decl(nidx, DeclView::Def(eidx1, eidx2, level_names@)),
            ),
    {
        self.insert_decl(nidx, Decl::Def(eidx1, eidx2, level_names))
    }

    /// Declares the name `nidx` as an inductive type with `params`
    /// parameters, type `eidx`, constructors `intros` and universe
    /// parameters `level_names`.
    pub fn add_inductive(
        &mut self,
        params: usize,
        nidx: usize,
        eidx: usize,
        intros: Vec<(usize, usize)>,
        level_names: Vec<usize>,
    ) -> (r: Result<(), IntegrityError>)
        requires
            old(self)@.wf(),
        ensures
            final(self)@.wf(),
            outcome(
                old(self)@,
                final(self)@,
                r,
                old(self)@.add_decl(nidx, DeclView::Ind(params, eidx, intros@, level_names@)),
            ),
    {
        self.insert_decl(nidx, Decl::Ind(params, eidx, intros, level_names))
    }
}

impl Environment {
    fn name_str(&self, idx: usize) -> (r: String)
        requires
            self@.wf(),
            self@.names.contains_key(idx),
        ensures
            r@ == self@.name_text(idx),
        decreases self@.name_rank()[idx],
    {
        let n = match self.names.get(&idx) {
            Some(n) => n,
            None => {
                return String::new();
            },
        };
        let seg = n.item.to_text();
        if n.parent == 0 {
            seg
        } else {
            let mut r = self.name_str(n.parent);
            r.append(".");
            r.append(seg.as_str());
            r
        }
    }

    /// The dotted text of the name at `name_idx`.
    pub fn name_to_string(&self, name_idx: usize) -> (r: Result<String, NotFoundError>)
        requires
            self@.wf(),
        ensures
            match r {
                Ok(s) => self@.names.contains_key(name_idx) && s@ == self@.name_text(name_idx),
                Err(_) => !self@.names.contains_key(name_idx),
            },
    {
        if !self.has_name(name_idx) {
            return Err(NotFoundError);
        }
        Ok(self.name_str(name_idx))
    }

    fn level_str(&self, idx: usize) -> (r: String)
        requires
            self@.wf(),
            self@.levels.contains_key(idx),
        ensures
            r@ == self@.level_text(idx),
        decreases self@.level_rank()[idx],
    {
        let l = match self.levels.get(&idx) {
            Some(l) => l,
            None => {
                return String::new();
            },
        };
        match l {
            Level::Zero => String::from_str("0"),
            Level::Succ(a) => {
                let mut r = String::from_str("(succ ");
                r.append(self.level_str(*a).as_str());
                r.append(")");
                r
            },
            Level::Max(a, b) => {
                let mut r = String::from_str("(max ");
                r.append(self.level_str(*a).as_str());
                r.append(" ");
                r.append(self.level_str(*b).as_str());
                r.append(")");
                r
            },
            Level::IMax(a, b) => {
                let mut r = String::from_str("(imax ");
                r.append(self.level_str(*a).as_str());
                r.append(" ");
                r.append(self.level_str(*b).as_str());
                r.append(")");
                r
            },
            Level::Param(n) => self.name_str(*n),
        }
    }

    /// The text of the universe level at `uidx`.
    pub fn level_to_string(&self, uidx: usize) -> (r: Result<String, NotFoundError>)
        requires
            self@.wf(),
        ensures
            match r {
                Ok(s) => self@.levels.contains_key(uidx) && s@ == self@.level_text(uidx),
                Err(_) => !self@.levels.contains_key(uidx),
            },
    {
        if !self.has_level(uidx) {
            return Err(NotFoundError);
        }
        Ok(self.level_str(uidx))
    }

    fn levels_str(&self, ls: &Vec<usize>) -> (r: String)
        requires
            self@.wf(),
            all_levels(self@, ls@),
        ensures
            r@ == self@.levels_text(ls@),
    {
        let ghost parts = ls@.map_values(|l: usize| self@.level_text(l));
        let mut out = String::new();
        let mut i: usize = 0;
        while i < ls.len()
            invariant
                self@.wf(),
                all_levels(self@, ls@),
                parts == ls@.map_values(|l: usize| self@.level_text(l)),
                i <= ls@.len(),
                out@ == join(parts.subrange(0, i as int), ","@),
            decreases ls@.len() - i,
        {
            proof {
                lemma_join_step(parts, i as int, ","@);
            }
            if i > 0 {
                out.append(",");
            }
            let t = self.level_str(ls[i]);
            out.append(t.as_str());
            i = i + 1;
        }
        proof {
            assert(parts.subrange(0, ls@.len() as int) =~= parts);
        }
        out
    }

    fn names_str(&self, ns: &Vec<usize>) -> (r: String)
        requires
            self@.wf(),
            all_names(self@, ns@),
        ensures
            r@ == self@.names_text(ns@),
    {
        let ghost parts = ns@.map_values(|n: usize| self@.name_text(n));
        let mut out = String::new();
        let mut i: usize = 0;
        while i < ns.len()
            invariant
                self@.wf(),
                all_names(self@, ns@),
                parts == ns@.map_values(|n: usize| self@.name_text(n)),
                i <= ns@.len(),
                out@ == join(parts.subrange(0, i as int), ","@),
            decreases ns@.len() - i,
        {
            proof {
                lemma_join_step(parts, i as int, ","@);
            }
            if i > 0 {
                out.append(",");
            }
            let t = self.name_str(ns[i]);
            out.append(t.as_str());
            i = i + 1;
        }
        proof {
            assert(parts.subrange(0, ns@.len() as int) =~= parts);
        }
        out
    }

    /// The text of the expression at `eidx`, printed outside any binder.
    pub fn expr_to_string(&self, eidx: usize) -> (r: Result<String, NotFoundError>)
        requires
            self@.wf(),
        ensures
            match r {
                Ok(s) => self@.exprs.contains_key(eidx) && s@ == self@.expr_text(eidx, Seq::empty()),
                Err(_) => !self@.exprs.contains_key(eidx),
            },
    {
        if !self.has_expr(eidx) {
            return Err(NotFoundError);
        }
        Ok(self.expr_str(eidx))
    }

    fn expr_str(&self, eidx: usize) -> (r: String)
        requires
            self@.wf(),
            self@.exprs.contains_key(eidx),
        ensures
            r@ == self@.expr_text(eidx, Seq::empty()),
    {
        let mut var_stack: Vec<String> = Vec::new();
        let result = self.expr_to_string_help(eidx, &mut var_stack);
        proof {
            assert(stack_view(Seq::empty()) =~= Seq::empty());
        }
        result
    }

    fn def_to_string(
        &self,
        name: &String,
        eidx1: usize,
        eidx2: usize,
        level_name_idxs: &Vec<usize>,
    ) -> (r: String)
        requires
            self@.wf(),
            self@.exprs.contains_key(eidx1),
            self@.exprs.contains_key(eidx2),
            all_names(self@, level_name_idxs@),
        ensures
            r@ == "definition "@ + name@ + (if level_name_idxs@.len() == 0 {
                Seq::empty()
            } else {
                ".{"@ + self@.names_text(level_name_idxs@) + "}"@
            }) + " "@ + self@.expr_text(eidx1, Seq::empty()) + " := "@ + self@.expr_text(
                eidx2,
                Seq::empty(),
            ),
    {
        let mut r = String::from_str("definition ");
        r.append(name.as_str());
        if level_name_idxs.len() > 0 {
            r.append(".{");
            r.append(self.names_str(level_name_idxs).as_str());
            r.append("}");
        }
        r.append(" ");
        r.append(self.expr_str(eidx1).as_str());
        r.append(" := ");
        r.append(self.expr_str(eidx2).as_str());
        proof {
            if level_name_idxs@.len() == 0 {
                assert(r@ =~= "definition "@ + name@ + Seq::<char>::empty() + " "@
                    + self@.expr_text(eidx1, Seq::empty()) + " := "@ + self@.expr_text(
                    eidx2,
                    Seq::empty(),
                ));
            }
        }
        r
    }

    fn ind_to_string(
        &self,
        name: &String,
        eidx: usize,
        intros: &Vec<(usize, usize)>,
        level_name_idxs: &Vec<usize>,
    ) -> (r: String)
        requires
            self@.wf(),
            self@.exprs.contains_key(eidx),
            all_intros(self@, intros@),
            all_names(self@, level_name_idxs@),
        ensures
            r@ == "inductive "@ + name@ + (if level_name_idxs@.len() == 0 {
                Seq::empty()
            } else {
                " {"@ + self@.names_text(level_name_idxs@) + "}"@
            }) + " "@ + self@.expr_text(eidx, Seq::empty()) + join(
                intros@.map_values(|c: (usize, usize)| self@.intro_text(c)),
                " "@,
            ),
    {
        let type_expr = self.expr_str(eidx);
        let mut r = String::from_str("inductive ");
        r.append(name.as_str());
        if level_name_idxs.len() > 0 {
            r.append(" {");
            r.append(self.names_str(level_name_idxs).as_str());
            r.append("}");
        }
        r.append(" ");
        r.append(type_expr.as_str());
        let ghost head = r@;
        let ghost parts = intros@.map_values(|c: (usize, usize)| self@.intro_text(c));
        let mut i: usize = 0;
        while i < intros.len()
            invariant
                self@.wf(),
                all_intros(self@, intros@),
                parts == intros@.map_values(|c: (usize, usize)| self@.intro_text(c)),
                i <= intros@.len(),
                r@ == head + join(parts.subrange(0, i as int), " "@),
            decreases intros@.len() - i,
        {
            proof {
                lemma_join_step(parts, i as int, " "@);
            }
            if i > 0 {
                r.append(" ");
            }
            let (ni, ei) = intros[i];
            r.append("\n| ");
            r.append(self.name_str(ni).as_str());
            r.append(" : ");
            r.append(self.expr_str(ei).as_str());
            i = i + 1;
        }
        proof {
            assert(parts.subrange(0, intros@.len() as int) =~= parts);
            if level_name_idxs@.len() == 0 {
                assert(head =~= "inductive "@ + name@ + Seq::<char>::empty() + " "@
                    + self@.expr_text(eidx, Seq::empty()));
            }
        }
        r
    }

    /// The text of the declaration of the name at `nidx`.
    pub fn decl_to_string(&self, nidx: usize) -> (r: Result<String, NotFoundError>)
        requires
            self@.wf(),
        ensures
            match r {
                Ok(s) => self@.decls.contains_key(nidx) && s@ == self@.decl_text(nidx),
                Err(_) => !self@.decls.contains_key(nidx),
            },
    {
        let decl = match self.decls.get(&nidx) {
            Some(d) => d,
            None => {
                return Err(NotFoundError);
            },
        };
        proof {
            assert(self.decls@.contains_key(nidx));
            assert(self@.decls.contains_key(nidx));
            assert(self@.decls[nidx] == decl@);
        }
        let name = self.name_str(nidx);
        match decl {
            Decl::Def(eidx1, eidx2, level_names) => Ok(
                self.def_to_string(&name, *eidx1, *eidx2, level_names),
            ),
            Decl::Ind(_params, eidx, intros, level_names) => Ok(
                self.ind_to_string(&name, *eidx, intros, level_names),
            ),
        }
    }

    fn pi_or_lambda_to_string(
        &self,
        info: &InfoAnnotation,
        nidx: usize,
        eidx1: usize,
        eidx2: usize,
        var_stack: &mut Vec<String>,
    ) -> (r: String)
        requires
            self@.wf(),
            self@.names.contains_key(nidx),
            self@.exprs.contains_key(eidx1),
            self@.exprs.contains_key(eidx2),
        ensures
            r@ == open_delim(*info) + self@.name_text(nidx) + " : "@ + self@.expr_text(
                eidx1,
                stack_view(old(var_stack)@),
            ) + close_delim(*info) + ", "@ + self@.expr_text(
                eidx2,
                stack_view(old(var_stack)@).push(self@.name_text(nidx)),
            ),
            final(var_stack)@ == old(var_stack)@,
        decreases (if self@.expr_rank()[eidx1] < self@.expr_rank()[eidx2] {
            self@.expr_rank()[eidx2]
        } else {
            self@.expr_rank()[eidx1]
        }), 2nat,
    {
        let delims = info.to_delims();
        let var_name = self.name_str(nidx);
        let e1 = self.expr_to_string_help(eidx1, var_stack);
        var_stack.push(var_name.clone());
        proof {
            assert(stack_view(var_stack@) =~= stack_view(old(var_stack)@).push(var_name@));
        }
        let e2 = self.expr_to_string_help(eidx2, var_stack);
        var_stack.pop();
        proof {
            assert(var_stack@ =~= old(var_stack)@);
        }
        let mut result = String::from_str(delims.0);
        result.append(var_name.as_str());
        result.append(" : ");
        result.append(e1.as_str());
        result.append(delims.1);
        result.append(", ");
        result.append(e2.as_str());
        result
    }

    /// The text of the expression at `eidx`, where `var_stack` holds the
    /// names of the enclosing binders, innermost last; the stack is left
    /// as it was.
    pub fn expr_to_string_help(&self, eidx: usize, var_stack: &mut Vec<String>) -> (r: String)
        requires
            self@.wf(),
            self@.exprs.contains_key(eidx),
        ensures
            r@ == self@.expr_text(eidx, stack_view(old(var_stack)@)),
            final(var_stack)@ == old(var_stack)@,
        decreases self@.expr_rank()[eidx], 1nat,
    {
        let expr = match self.exprs.get(&eidx) {
            Some(e) => e,
            None => {
                return String::new();
            },
        };
        match expr {
            Expr::Sort(u) => {
                let mut r = String::from_str("Sort ");
                r.append(self.level_str(*u).as_str());
                r
            },
            Expr::BoundVar(i) => {
                if *i < var_stack.len() {
                    var_stack[var_stack.len() - 1 - *i].clone()
                } else {
                    let mut r = String::from_str("<");
                    r.append(decimal_string(*i).as_str());
                    r.append(">");
                    r
                }
            },
            Expr::Pi(info, n, i1, i2) => self.pi_or_lambda_to_string(info, *n, *i1, *i2, var_stack),
            Expr::Lambda(info, n, i1, i2) => self.pi_or_lambda_to_string(
                info,
                *n,
                *i1,
                *i2,
                var_stack,
            ),
            Expr::Constant(n, lvls) => {
                let mut name = self.name_str(*n);
                if lvls.len() == 0 {
                    name
                } else {
                    name.append(".{");
                    name.append(self.levels_str(lvls).as_str());
                    name.append("}");
                    name
                }
            },
            Expr::FunAppl(fe, be) => {
                let fst = self.expr_to_string_help(*fe, var_stack);
                let bst = self.expr_to_string_help(*be, var_stack);
                let mut r = String::from_str("(");
                r.append(fst.as_str());
                r.append(" ");
                r.append(bst.as_str());
                r.append(")");
                r
            },
        }
    }
}

/// References that resolve keep resolving as the tables grow.
proof fn lemma_refs_grow(v: EnvView, w: EnvView)
    requires
        v.names.submap_of(w.names),
        v.levels.submap_of(w.levels),
        v.exprs.submap_of(w.exprs),
    ensures
        forall|l: Level| v.level_refs_present(l) ==> #[trigger] w.level_refs_present(l),
        forall|e: ExprView| v.expr_refs_present(e) ==> #[trigger] w.expr_refs_present(e),
        forall|i: usize, d: DeclView|
            v.decl_refs_present(i, d) ==> #[trigger] w.decl_refs_present(i, d),
{
    assert forall|e: ExprView| v.expr_refs_present(e) implies #[trigger] w.expr_refs_present(e) by {
        if let ExprView::Constant(n, ls) = e {
            assert(all_levels(v, ls));
        }
    }
    assert forall|i: usize, d: DeclView| v.decl_refs_present(i, d) implies #[trigger] w.decl_refs_present(
        i,
        d,
    ) by {
        match d {
            DeclView::Def(_, _, ps) => {
                assert(all_names(v, ps));
            },
            DeclView::Ind(_, _, cs, ps) => {
                assert(all_names(v, ps));
                assert(all_intros(v, cs));
            },
        }
    }
}

proof fn lemma_add_name_wf(v: EnvView, idx: usize, item: Segment, parent: usize)
    requires
        v.wf(),
        v.add_name(idx, item, parent) is Ok,
    ensures
        v.add_name(idx, item, parent)->Ok_0.wf(),
{
    let w = v.with_name(idx, NameView { item, parent });
    lemma_refs_grow(v, w);
    let r = v.name_rank();
    assert(w.name_ranking(r.insert(idx, if parent == 0 { 0 } else { r[parent] + 1 })));
    assert(w.level_ranking(v.level_rank()));
    assert(w.expr_ranking(v.expr_rank()));
}

proof fn lemma_add_level_wf(v: EnvView, idx: usize, l: Level)
    requires
        v.wf(),
        v.add_level(idx, l) is Ok,
    ensures
        v.add_level(idx, l)->Ok_0.wf(),
{
    let w = v.with_level(idx, l);
    lemma_refs_grow(v, w);
    let r = v.level_rank();
    let k: nat = match l {
        Level::Succ(a) => r[a] + 1,
        Level::Max(a, b) => r[a] + r[b] + 1,
        Level::IMax(a, b) => r[a] + r[b] + 1,
        _ => 0,
    };
    assert(w.level_ranking(r.insert(idx, k)));
    assert(w.name_ranking(v.name_rank()));
    assert(w.expr_ranking(v.expr_rank()));
}

proof fn lemma_add_expr_wf(v: EnvView, idx: usize, e: ExprView)
    requires
        v.wf(),
        v.add_expr(idx, e) is Ok,
    ensures
        v.add_expr(idx, e)->Ok_0.wf(),
{
    let w = v.with_expr(idx, e);
    lemma_refs_grow(v, w);
    let r = v.expr_rank();
    let k: nat = match e {
        ExprView::FunAppl(a, b) => r[a] + r[b] + 1,
        ExprView::Lambda(_, _, a, b) => r[a] + r[b] + 1,
        ExprView::Pi(_, _, a, b) => r[a] + r[b] + 1,
        _ => 0,
    };
    assert(w.expr_ranking(r.insert(idx, k)));
    assert(w.name_ranking(v.name_rank()));
    assert(w.level_ranking(v.level_rank()));
}

proof fn lemma_add_decl_wf(v: EnvView, idx: usize, d: DeclView)
    requires
        v.wf(),
        v.add_decl(idx, d) is Ok,
    ensures
        v.add_decl(idx, d)->Ok_0.wf(),
{
    let w = v.with_decl(idx, d);
    lemma_refs_grow(v, w);
    assert(w.name_ranking(v.name_rank()));
    assert(w.level_ranking(v.level_rank()));
    assert(w.expr_ranking(v.expr_rank()));
}

} // verus!

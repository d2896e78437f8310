//! The usage extractor: a structural walk over a module's statements and
//! expressions that records how namespace imports are dereferenced.
//!
//! The only emission rule: a member access `alias.member` whose object is a
//! bare identifier bound by a namespace import and whose property is a
//! static name yields `Usage::Namespace(member, alias)`.  No other
//! identifier reference is recorded: reachability of named and default
//! imports is decided at the import statement, not at the reference.  The
//! walk recurses into every sub-expression it can reach, including computed
//! member properties, optional chains and the expressions embedded in JSX;
//! import declarations themselves are excluded.

use vstd::prelude::*;

use crate::ast::ArrowBody;
use crate::ast::Callee;
use crate::ast::Class;
use crate::ast::ClassMember;
use crate::ast::Decl;
use crate::ast::DefaultDecl;
use crate::ast::Expr;
use crate::ast::Function;
use crate::ast::MemberProp;
use crate::ast::Module;
use crate::ast::ModuleDecl;
use crate::ast::ModuleItem;
use crate::ast::PropOrSpread;
use crate::ast::Stmt;
use crate::ast::SwitchCase;
use crate::ast::VarDeclarator;
use crate::module_symbols::Import;
use crate::module_symbols::ImportV;
use crate::module_symbols::Usage;
use crate::module_symbols::UsageV;
use crate::vecset::distinct_seq;
use crate::vecset::vec_set_extend;

verus! {

/// Whether `alias` is bound by a namespace import.
pub open spec fn is_ns_alias(imports: Set<ImportV>, alias: Seq<char>) -> bool {
    imports.contains(ImportV::Namespace(alias))
}

/// The usages of a sequence of top-level items.
pub open spec fn usages_of_module_items(imports: Set<ImportV>, items: Seq<ModuleItem>) -> Set<
    UsageV,
>
    decreases items,
{
    if items.len() == 0 {
        Set::empty()
    } else {
        usages_of_module_item(imports, items[0]).union(
            usages_of_module_items(imports, items.drop_first()),
        )
    }
}

/// The usages of one top-level item.
pub open spec fn usages_of_module_item(imports: Set<ImportV>, item: ModuleItem) -> Set<UsageV>
    decreases item,
{
    match item {
        ModuleItem::Stmt(s) => usages_of_stmt(imports, s),
        ModuleItem::ModuleDecl(d) => usages_of_module_decl(imports, d),
    }
}

/// The usages of one module declaration; import declarations contribute
/// nothing.
pub open spec fn usages_of_module_decl(imports: Set<ImportV>, decl: ModuleDecl) -> Set<UsageV>
    decreases decl,
{
    match decl {
        ModuleDecl::Import(_) => Set::empty(),
        ModuleDecl::ExportDecl(d) => usages_of_decl(imports, d),
        ModuleDecl::ExportNamed(_) => Set::empty(),
        ModuleDecl::ExportDefaultDecl(d) => match d {
            DefaultDecl::Fn(f) => usages_of_function(imports, f),
            DefaultDecl::Class(c) => usages_of_class(imports, c),
        },
        ModuleDecl::ExportDefaultExpr(e) => usages_of_expr(imports, *e),
        ModuleDecl::ExportAll(_) => Set::empty(),
        ModuleDecl::ImportEquals => Set::empty(),
    }
}

/// The usages of a sequence of statements.
pub open spec fn usages_of_stmts(imports: Set<ImportV>, ss: Seq<Stmt>) -> Set<UsageV>
    decreases ss,
{
    if ss.len() == 0 {
        Set::empty()
    } else {
        usages_of_stmt(imports, ss[0]).union(usages_of_stmts(imports, ss.drop_first()))
    }
}

/// The usages of an optional statement block.
pub open spec fn usages_of_opt_block(imports: Set<ImportV>, b: Option<Vec<Stmt>>) -> Set<UsageV>
    decreases b,
{
    match b {
        Some(ss) => usages_of_stmts(imports, ss@),
        None => Set::empty(),
    }
}

/// The usages of one statement.
pub open spec fn usages_of_stmt(imports: Set<ImportV>, s: Stmt) -> Set<UsageV>
    decreases s,
{
    match s {
        Stmt::Block(ss) => usages_of_stmts(imports, ss@),
        Stmt::Empty => Set::empty(),
        Stmt::Debugger => Set::empty(),
        Stmt::With(e, b) => usages_of_stmt(imports, *b).union(usages_of_expr(imports, *e)),
        Stmt::Return(o) => match o {
            Some(e) => usages_of_expr(imports, *e),
            None => Set::empty(),
        },
        Stmt::Labeled(b) => usages_of_stmt(imports, *b),
        Stmt::Break => Set::empty(),
        Stmt::Continue => Set::empty(),
        Stmt::If(t, c, a) => usages_of_expr(imports, *t).union(
            usages_of_stmt(imports, *c),
        ).union(
            match a {
                Some(b) => usages_of_stmt(imports, *b),
                None => Set::empty(),
            },
        ),
        Stmt::Switch(d, cases) => usages_of_expr(imports, *d).union(
            usages_of_cases(imports, cases@),
        ),
        Stmt::Throw(e) => usages_of_expr(imports, *e),
        Stmt::Try(b, h, f) => usages_of_stmts(imports, b@).union(
            usages_of_opt_block(imports, h),
        ).union(usages_of_opt_block(imports, f)),
        Stmt::While(t, b) => usages_of_expr(imports, *t).union(usages_of_stmt(imports, *b)),
        Stmt::DoWhile(t, b) => usages_of_expr(imports, *t).union(usages_of_stmt(imports, *b)),
        Stmt::For(t, u, b) => (match t {
            Some(e) => usages_of_expr(imports, *e),
            None => Set::empty(),
        }).union(
            match u {
                Some(e) => usages_of_expr(imports, *e),
                None => Set::empty(),
            },
        ).union(usages_of_stmt(imports, *b)),
        Stmt::ForIn(r, b) => usages_of_expr(imports, *r).union(usages_of_stmt(imports, *b)),
        Stmt::ForOf(r, b) => usages_of_expr(imports, *r).union(usages_of_stmt(imports, *b)),
        Stmt::Decl(d) => usages_of_decl(imports, d),
        Stmt::Expr(e) => usages_of_expr(imports, *e),
    }
}

/// The usages of the cases of a switch statement.
pub open spec fn usages_of_cases(imports: Set<ImportV>, cs: Seq<SwitchCase>) -> Set<UsageV>
    decreases cs,
{
    if cs.len() == 0 {
        Set::empty()
    } else {
        usages_of_case(imports, cs[0]).union(usages_of_cases(imports, cs.drop_first()))
    }
}

/// The usages of one switch case: its body, and its test if it has one.
pub open spec fn usages_of_case(imports: Set<ImportV>, c: SwitchCase) -> Set<UsageV>
    decreases c,
{
    usages_of_stmts(imports, c.cons@).union(
        match c.test {
            Some(e) => usages_of_expr(imports, e),
            None => Set::empty(),
        },
    )
}

/// The usages of a sequence of expressions.
pub open spec fn usages_of_exprs(imports: Set<ImportV>, es: Seq<Expr>) -> Set<UsageV>
    decreases es,
{
    if es.len() == 0 {
        Set::empty()
    } else {
        usages_of_expr(imports, es[0]).union(usages_of_exprs(imports, es.drop_first()))
    }
}

/// The usages of a sequence of optional expressions (array elements).
pub open spec fn usages_of_opt_exprs(imports: Set<ImportV>, es: Seq<Option<Expr>>) -> Set<UsageV>
    decreases es,
{
    if es.len() == 0 {
        Set::empty()
    } else {
        (match es[0] {
            Some(e) => usages_of_expr(imports, e),
            None => Set::empty(),
        }).union(usages_of_opt_exprs(imports, es.drop_first()))
    }
}

/// The usages of one expression.
pub open spec fn usages_of_expr(imports: Set<ImportV>, e: Expr) -> Set<UsageV>
    decreases e,
{
    match e {
        Expr::This => Set::empty(),
        Expr::Array(elems) => usages_of_opt_exprs(imports, elems@),
        Expr::Object(props) => usages_of_props(imports, props@),
        Expr::Fn(f) => usages_of_function(imports, f),
        Expr::Unary(a) => usages_of_expr(imports, *a),
        Expr::Update(a) => usages_of_expr(imports, *a),
        Expr::Bin(l, r) => usages_of_expr(imports, *l).union(usages_of_expr(imports, *r)),
        Expr::Assign(r) => usages_of_expr(imports, *r),
        Expr::Member(obj, prop) => match prop {
            MemberProp::Ident(name) => match *obj {
                Expr::Ident(alias) => if is_ns_alias(imports, alias@) {
                    Set::empty().insert(UsageV::Namespace(name@, alias@))
                } else {
                    Set::empty()
                },
                _ => usages_of_expr(imports, *obj),
            },
            MemberProp::PrivateName => usages_of_expr(imports, *obj),
            MemberProp::Computed(ce) => usages_of_expr(imports, *obj).union(
                usages_of_expr(imports, *ce),
            ),
        },
        Expr::SuperProp => Set::empty(),
        Expr::Cond(t, c, a) => usages_of_expr(imports, *t).union(
            usages_of_expr(imports, *c),
        ).union(usages_of_expr(imports, *a)),
        Expr::Call(callee, args) => usages_of_exprs(imports, args@).union(
            match callee {
                Callee::Super => Set::empty(),
                Callee::Import => Set::empty(),
                Callee::Expr(c) => usages_of_expr(imports, *c),
            },
        ),
        Expr::New(callee, args) => usages_of_expr(imports, *callee).union(
            match args {
                Some(es) => usages_of_exprs(imports, es@),
                None => Set::empty(),
            },
        ),
        Expr::Comma(es) => usages_of_exprs(imports, es@),
        Expr::Ident(_) => Set::empty(),
        Expr::Lit => Set::empty(),
        Expr::Tpl(es) => usages_of_exprs(imports, es@),
        Expr::TaggedTpl(tag, es) => usages_of_exprs(imports, es@).union(
            usages_of_expr(imports, *tag),
        ),
        Expr::Arrow(body) => match body {
            ArrowBody::Expr(e2) => usages_of_expr(imports, *e2),
            ArrowBody::Block(ss) => usages_of_stmts(imports, ss@),
        },
        Expr::ClassExpr(c) => usages_of_class(imports, c),
        Expr::Yield(o) => match o {
            Some(e2) => usages_of_expr(imports, *e2),
            None => Set::empty(),
        },
        Expr::MetaProp => Set::empty(),
        Expr::Await(a) => usages_of_expr(imports, *a),
        Expr::Paren(a) => usages_of_expr(imports, *a),
        Expr::JsxElement(es) => usages_of_exprs(imports, es@),
        Expr::JsxFragment(es) => usages_of_exprs(imports, es@),
        Expr::TsTypeAssertion(a) => usages_of_expr(imports, *a),
        Expr::TsConstAssertion(a) => usages_of_expr(imports, *a),
        Expr::TsNonNull(a) => usages_of_expr(imports, *a),
        Expr::TsAs(a) => usages_of_expr(imports, *a),
        Expr::TsInstantiation(a) => usages_of_expr(imports, *a),
        Expr::TsSatisfies(a) => usages_of_expr(imports, *a),
        Expr::OptChain(e2) => usages_of_expr(imports, *e2),
    }
}

/// The usages of a class body.
pub open spec fn usages_of_class(imports: Set<ImportV>, c: Class) -> Set<UsageV>
    decreases c,
{
    usages_of_members(imports, c.members@)
}

/// The usages of a sequence of class members.
pub open spec fn usages_of_members(imports: Set<ImportV>, ms: Seq<ClassMember>) -> Set<UsageV>
    decreases ms,
{
    if ms.len() == 0 {
        Set::empty()
    } else {
        (match ms[0] {
            ClassMember::Constructor(b) => usages_of_opt_block(imports, b),
            ClassMember::Method(f) => usages_of_function(imports, f),
        }).union(usages_of_members(imports, ms.drop_first()))
    }
}

/// The usages of a sequence of object properties.
pub open spec fn usages_of_props(imports: Set<ImportV>, ps: Seq<PropOrSpread>) -> Set<UsageV>
    decreases ps,
{
    if ps.len() == 0 {
        Set::empty()
    } else {
        usages_of_prop(imports, ps[0]).union(usages_of_props(imports, ps.drop_first()))
    }
}

/// The usages of one object property or spread.
pub open spec fn usages_of_prop(imports: Set<ImportV>, p: PropOrSpread) -> Set<UsageV>
    decreases p,
{
    match p {
        PropOrSpread::Shorthand => Set::empty(),
        PropOrSpread::KeyValue(e) => usages_of_expr(imports, *e),
        PropOrSpread::Assign(e) => usages_of_expr(imports, *e),
        PropOrSpread::Getter(b) => usages_of_opt_block(imports, b),
        PropOrSpread::Setter(b) => usages_of_opt_block(imports, b),
        PropOrSpread::Method(f) => usages_of_function(imports, f),
        PropOrSpread::Spread(e) => usages_of_expr(imports, *e),
    }
}

/// The usages of a function body.
pub open spec fn usages_of_function(imports: Set<ImportV>, f: Function) -> Set<UsageV>
    decreases f,
{
    usages_of_opt_block(imports, f.body)
}

/// The usages of a declaration: class and function bodies and variable
/// initializers are walked; type-level declarations hold no expressions the
/// walk reads.
pub open spec fn usages_of_decl(imports: Set<ImportV>, d: Decl) -> Set<UsageV>
    decreases d,
{
    match d {
        Decl::Class(_, c) => usages_of_class(imports, c),
        Decl::Fn(_, f) => usages_of_function(imports, f),
        Decl::Var(ds) => usages_of_var_decls(imports, ds@),
        Decl::TsEnum(_) => Set::empty(),
        Decl::TsInterface(_) => Set::empty(),
        Decl::TsTypeAlias(_) => Set::empty(),
        Decl::TsModule(_) => Set::empty(),
    }
}

/// The usages of the initializers of a variable declaration.
pub open spec fn usages_of_var_decls(imports: Set<ImportV>, ds: Seq<VarDeclarator>) -> Set<UsageV>
    decreases ds,
{
    if ds.len() == 0 {
        Set::empty()
    } else {
        (match ds[0].init {
            Some(e) => usages_of_expr(imports, e),
            None => Set::empty(),
        }).union(usages_of_var_decls(imports, ds.drop_first()))
    }
}

/// The usages of a whole module.
pub open spec fn usages_of_module(imports: Set<ImportV>, m: Module) -> Set<UsageV> {
    usages_of_module_items(imports, m.body@)
}

/// The analyzer of one module's body: it knows the bindings the module's
/// import statements introduce, and walks the body for namespace usages.
pub struct SymbolsUsageAnalyzer {
    imports: Vec<Import>,
}

impl SymbolsUsageAnalyzer {
    /// The set of import bindings the analyzer knows.
    pub closed spec fn import_set(self) -> Set<ImportV> {
        self.imports.deep_view().to_set()
    }

    pub fn new(imports: Vec<Import>) -> (r: Self)
        ensures
            r.import_set() == imports.deep_view().to_set(),
    {
        SymbolsUsageAnalyzer { imports }
    }

    /// Whether `alias` is bound by a namespace import.
    fn is_namespace_alias(&self, alias: &String) -> (r: bool)
        ensures
            r == is_ns_alias(self.import_set(), alias@),
    {
        let n = self.imports.len();
        let mut i: usize = 0;
        while i < n
            invariant
                n == self.imports@.len(),
                i <= n,
                forall|k: int|
                    0 <= k < i ==> self.imports.deep_view()[k] != ImportV::Namespace(alias@),
            decreases n - i,
        {
            match &self.imports[i] {
                Import::Namespace(a) => {
                    if *a == *alias {
                        assert(self.imports.deep_view()[i as int] == ImportV::Namespace(alias@));
                        return true;
                    }
                },
                _ => {},
            }
            proof {
                assert(self.imports.deep_view()[i as int] == self.imports@[i as int].deep_view());
            }
            i += 1;
        }
        false
    }

    /// The usages of a whole module: the union over its top-level items.
    pub fn analyze_symbols_usage(&self, module: &Module) -> (r: Vec<Usage>)
        ensures
            distinct_seq(r@),
            r.deep_view().to_set() == usages_of_module(self.import_set(), *module),
    {
        self.analyze_module_items(&module.body)
    }

    fn analyze_module_items(&self, items: &Vec<ModuleItem>) -> (r: Vec<Usage>)
        ensures
            distinct_seq(r@),
            r.deep_view().to_set() == usages_of_module_items(self.import_set(), items@),
        decreases items@,
    {
        let ghost im = self.import_set();
        let mut acc: Vec<Usage> = Vec::new();
        let n = items.len();
        let mut i: usize = 0;
        proof {
            assert(items@.skip(0) =~= items@);
            assert(acc.deep_view().to_set().union(usages_of_module_items(im, items@))
                =~= usages_of_module_items(im, items@));
        }
        while i < n
            invariant
                n == items@.len(),
                i <= n,
                im == self.import_set(),
                distinct_seq(acc@),
                acc.deep_view().to_set().union(
                    usages_of_module_items(im, items@.skip(i as int)),
                ) == usages_of_module_items(im, items@),
            decreases n - i,
        {
            let ghost prev = acc.deep_view().to_set();
            let u = self.analyze_module_item(&items[i]);
            proof {
                assert(items@.skip(i as int)[0] == items@[i as int]);
                assert(items@.skip(i as int).drop_first() =~= items@.skip(i as int + 1));
            }
            vec_set_extend(&mut acc, u);
            proof {
                assert(acc.deep_view().to_set().union(
                    usages_of_module_items(im, items@.skip(i as int + 1)),
                ) =~= prev.union(usages_of_module_items(im, items@.skip(i as int))));
            }
            i += 1;
        }
        proof {
            assert(items@.skip(n as int) =~= Seq::<ModuleItem>::empty());
            assert(acc.deep_view().to_set() =~= usages_of_module_items(im, items@));
        }
        acc
    }

    fn analyze_module_item(&self, item: &ModuleItem) -> (r: Vec<Usage>)
        ensures
            distinct_seq(r@),
            r.deep_view().to_set() == usages_of_module_item(self.import_set(), *item),
        decreases *item,
    {
        match item {
            ModuleItem::Stmt(s) => self.analyze_stmt(s),
            ModuleItem::ModuleDecl(d) => self.analyze_module_decl(d),
        }
    }

    fn analyze_module_decl(&self, decl: &ModuleDecl) -> (r: Vec<Usage>)
        ensures
            distinct_seq(r@),
            r.deep_view().to_set() == usages_of_module_decl(self.import_set(), *decl),
        decreases *decl,
    {
        match decl {
            ModuleDecl::Import(_) => self.empty_usages(),
            ModuleDecl::ExportDecl(d) => self.analyze_decl(d),
            ModuleDecl::ExportNamed(_) => self.empty_usages(),
            ModuleDecl::ExportDefaultDecl(d) => match d {
                DefaultDecl::Fn(f) => self.analyze_function(f),
                DefaultDecl::Class(c) => self.analyze_class(c),
            },
            ModuleDecl::ExportDefaultExpr(e) => self.analyze_expr(e),
            ModuleDecl::ExportAll(_) => self.empty_usages(),
            ModuleDecl::ImportEquals => self.empty_usages(),
        }
    }

    /// No usages.
    fn empty_usages(&self) -> (r: Vec<Usage>)
        ensures
            distinct_seq(r@),
            r.deep_view().to_set() == Set::<UsageV>::empty(),
    {
        let r: Vec<Usage> = Vec::new();
        proof {
            assert(r.deep_view().to_set() =~= Set::<UsageV>::empty());
        }
        r
    }

    fn analyze_block_stmt(&self, stmts: &Vec<Stmt>) -> (r: Vec<Usage>)
        ensures
            distinct_seq(r@),
            r.deep_view().to_set() == usages_of_stmts(self.import_set(), stmts@),
        decreases stmts@,
    {
        let ghost im = self.import_set();
        let mut acc: Vec<Usage> = Vec::new();
        let n = stmts.len();
        let mut i: usize = 0;
        proof {
            assert(stmts@.skip(0) =~= stmts@);
            assert(acc.deep_view().to_set().union(usages_of_stmts(im, stmts@))
                =~= usages_of_stmts(im, stmts@));
        }
        while i < n
            invariant
                n == stmts@.len(),
                i <= n,
                im == self.import_set(),
                distinct_seq(acc@),
                acc.deep_view().to_set().union(usages_of_stmts(im, stmts@.skip(i as int)))
                    == usages_of_stmts(im, stmts@),
            decreases n - i,
        {
            let ghost prev = acc.deep_view().to_set();
            let u = self.analyze_stmt(&stmts[i]);
            proof {
                assert(stmts@.skip(i as int)[0] == stmts@[i as int]);
                assert(stmts@.skip(i as int).drop_first() =~= stmts@.skip(i as int + 1));
            }
            vec_set_extend(&mut acc, u);
            proof {
                assert(acc.deep_view().to_set().union(usages_of_stmts(im, stmts@.skip(i as int + 1)))
                    =~= prev.union(usages_of_stmts(im, stmts@.skip(i as int))));
            }
            i += 1;
        }
        proof {
            assert(stmts@.skip(n as int) =~= Seq::<Stmt>::empty());
            assert(acc.deep_view().to_set() =~= usages_of_stmts(im, stmts@));
        }
        acc
    }

    fn analyze_stmt(&self, stmt: &Stmt) -> (r: Vec<Usage>)
        ensures
            distinct_seq(r@),
            r.deep_view().to_set() == usages_of_stmt(self.import_set(), *stmt),
        decreases *stmt,
    {
        match stmt {
            Stmt::Block(ss) => self.analyze_block_stmt(ss),
            Stmt::Empty => self.empty_usages(),
            Stmt::Debugger => self.empty_usages(),
            Stmt::With(e, b) => merge_usages(self.analyze_stmt(b), self.analyze_expr(e)),
            Stmt::Return(o) => match o {
                Some(e) => self.analyze_expr(e),
                None => self.empty_usages(),
            },
            Stmt::Labeled(b) => self.analyze_stmt(b),
            Stmt::Break => self.empty_usages(),
            Stmt::Continue => self.empty_usages(),
            Stmt::If(t, c, a) => merge_usages(
                merge_usages(self.analyze_expr(t), self.analyze_stmt(c)),
                match a {
                    Some(b) => self.analyze_stmt(b),
                    None => self.empty_usages(),
                },
            ),
            Stmt::Switch(d, cases) => merge_usages(
                self.analyze_expr(d),
                self.analyze_switch_cases(cases),
            ),
            Stmt::Throw(e) => self.analyze_expr(e),
            Stmt::Try(b, h, f) => {
                let ub = self.analyze_block_stmt(b);
                let uh = match h {
                    Some(ss) => self.analyze_block_stmt(ss),
                    None => self.empty_usages(),
                };
                proof {
                    assert(uh.deep_view().to_set() == usages_of_opt_block(self.import_set(), *h));
                }
                let uf = match f {
                    Some(ss) => self.analyze_block_stmt(ss),
                    None => self.empty_usages(),
                };
                proof {
                    assert(uf.deep_view().to_set() == usages_of_opt_block(self.import_set(), *f));
                }
                merge_usages(merge_usages(ub, uh), uf)
            },
            Stmt::While(t, b) => merge_usages(self.analyze_expr(t), self.analyze_stmt(b)),
            Stmt::DoWhile(t, b) => merge_usages(self.analyze_expr(t), self.analyze_stmt(b)),
            Stmt::For(t, u, b) => merge_usages(
                merge_usages(
                    match t {
                        Some(e) => self.analyze_expr(e),
                        None => self.empty_usages(),
                    },
                    match u {
                        Some(e) => self.analyze_expr(e),
                        None => self.empty_usages(),
                    },
                ),
                self.analyze_stmt(b),
            ),
            Stmt::ForIn(e, b) => merge_usages(self.analyze_expr(e), self.analyze_stmt(b)),
            Stmt::ForOf(e, b) => merge_usages(self.analyze_expr(e), self.analyze_stmt(b)),
            Stmt::Decl(d) => self.analyze_decl(d),
            Stmt::Expr(e) => self.analyze_expr(e),
        }
    }

    fn analyze_switch_cases(&self, cases: &Vec<SwitchCase>) -> (r: Vec<Usage>)
        ensures
            distinct_seq(r@),
            r.deep_view().to_set() == usages_of_cases(self.import_set(), cases@),
        decreases cases@,
    {
        let ghost im = self.import_set();
        let mut acc: Vec<Usage> = Vec::new();
        let n = cases.len();
        let mut i: usize = 0;
        proof {
            assert(cases@.skip(0) =~= cases@);
            assert(acc.deep_view().to_set().union(usages_of_cases(im, cases@))
                =~= usages_of_cases(im, cases@));
        }
        while i < n
            invariant
                n == cases@.len(),
                i <= n,
                im == self.import_set(),
                distinct_seq(acc@),
                acc.deep_view().to_set().union(usages_of_cases(im, cases@.skip(i as int)))
                    == usages_of_cases(im, cases@),
            decreases n - i,
        {
            let ghost prev = acc.deep_view().to_set();
            let c = &cases[i];
            let u = merge_usages(
                self.analyze_block_stmt(&c.cons),
                match &c.test {
                    Some(e) => self.analyze_expr(e),
                    None => self.empty_usages(),
                },
            );
            proof {
                assert(cases@.skip(i as int)[0] == cases@[i as int]);
                assert(cases@.skip(i as int).drop_first() =~= cases@.skip(i as int + 1));
                assert(u.deep_view().to_set() == usages_of_case(im, cases@[i as int]));
            }
            vec_set_extend(&mut acc, u);
            proof {
                assert(acc.deep_view().to_set().union(usages_of_cases(im, cases@.skip(i as int + 1)))
                    =~= prev.union(usages_of_cases(im, cases@.skip(i as int))));
            }
            i += 1;
        }
        proof {
            assert(cases@.skip(n as int) =~= Seq::<SwitchCase>::empty());
            assert(acc.deep_view().to_set() =~= usages_of_cases(im, cases@));
        }
        acc
    }

    fn analyze_exprs(&self, exprs: &Vec<Expr>) -> (r: Vec<Usage>)
        ensures
            distinct_seq(r@),
            r.deep_view().to_set() == usages_of_exprs(self.import_set(), exprs@),
        decreases exprs@,
    {
        let ghost im = self.import_set();
        let mut acc: Vec<Usage> = Vec::new();
        let n = exprs.len();
        let mut i: usize = 0;
        proof {
            assert(exprs@.skip(0) =~= exprs@);
            assert(acc.deep_view().to_set().union(usages_of_exprs(im, exprs@))
                =~= usages_of_exprs(im, exprs@));
        }
        while i < n
            invariant
                n == exprs@.len(),
                i <= n,
                im == self.import_set(),
                distinct_seq(acc@),
                acc.deep_view().to_set().union(usages_of_exprs(im, exprs@.skip(i as int)))
                    == usages_of_exprs(im, exprs@),
            decreases n - i,
        {
            let ghost prev = acc.deep_view().to_set();
            let u = self.analyze_expr(&exprs[i]);
            proof {
                assert(exprs@.skip(i as int)[0] == exprs@[i as int]);
                assert(exprs@.skip(i as int).drop_first() =~= exprs@.skip(i as int + 1));
            }
            vec_set_extend(&mut acc, u);
            proof {
                assert(acc.deep_view().to_set().union(usages_of_exprs(im, exprs@.skip(i as int + 1)))
                    =~= prev.union(usages_of_exprs(im, exprs@.skip(i as int))));
            }
            i += 1;
        }
        proof {
            assert(exprs@.skip(n as int) =~= Seq::<Expr>::empty());
            assert(acc.deep_view().to_set() =~= usages_of_exprs(im, exprs@));
        }
        acc
    }

    fn analyze_opt_exprs(&self, exprs: &Vec<Option<Expr>>) -> (r: Vec<Usage>)
        ensures
            distinct_seq(r@),
            r.deep_view().to_set() == usages_of_opt_exprs(self.import_set(), exprs@),
        decreases exprs@,
    {
        let ghost im = self.import_set();
        let mut acc: Vec<Usage> = Vec::new();
        let n = exprs.len();
        let mut i: usize = 0;
        proof {
            assert(exprs@.skip(0) =~= exprs@);
            assert(acc.deep_view().to_set().union(usages_of_opt_exprs(im, exprs@))
                =~= usages_of_opt_exprs(im, exprs@));
        }
        while i < n
            invariant
                n == exprs@.len(),
                i <= n,
                im == self.import_set(),
                distinct_seq(acc@),
                acc.deep_view().to_set().union(usages_of_opt_exprs(im, exprs@.skip(i as int)))
                    == usages_of_opt_exprs(im, exprs@),
            decreases n - i,
        {
            let ghost prev = acc.deep_view().to_set();
            let u = match &exprs[i] {
                Some(e) => self.analyze_expr(e),
                None => self.empty_usages(),
            };
            proof {
                assert(exprs@.skip(i as int)[0] == exprs@[i as int]);
                assert(exprs@.skip(i as int).drop_first() =~= exprs@.skip(i as int + 1));
            }
            vec_set_extend(&mut acc, u);
            proof {
                assert(acc.deep_view().to_set().union(
                    usages_of_opt_exprs(im, exprs@.skip(i as int + 1)),
                ) =~= prev.union(usages_of_opt_exprs(im, exprs@.skip(i as int))));
            }
            i += 1;
        }
        proof {
            assert(exprs@.skip(n as int) =~= Seq::<Option<Expr>>::empty());
            assert(acc.deep_view().to_set() =~= usages_of_opt_exprs(im, exprs@));
        }
        acc
    }

    fn analyze_expr(&self, expr: &Expr) -> (r: Vec<Usage>)
        ensures
            distinct_seq(r@),
            r.deep_view().to_set() == usages_of_expr(self.import_set(), *expr),
        decreases *expr,
    {
        match expr {
            Expr::This => self.empty_usages(),
            Expr::Array(elems) => self.analyze_opt_exprs(elems),
            Expr::Object(props) => self.analyze_props(props),
            Expr::Fn(f) => self.analyze_function(f),
            Expr::Unary(a) => self.analyze_expr(a),
            Expr::Update(a) => self.analyze_expr(a),
            Expr::Bin(l, r) => merge_usages(self.analyze_expr(l), self.analyze_expr(r)),
            Expr::Assign(r) => self.analyze_expr(r),
            Expr::Member(obj, prop) => match prop {
                MemberProp::Ident(name) => match &**obj {
                    Expr::Ident(alias) => {
                        if self.is_namespace_alias(alias) {
                            let mut r: Vec<Usage> = Vec::new();
                            r.push(Usage::Namespace(name.clone(), alias.clone()));
                            proof {
                                assert(r@.len() == 1);
                                assert(r@[0].deep_view() == UsageV::Namespace(name@, alias@));
                                assert(r.deep_view() =~= seq![
                                    UsageV::Namespace(name@, alias@),
                                ]);
                                assert(r.deep_view().to_set() =~= Set::<UsageV>::empty().insert(
                                    UsageV::Namespace(name@, alias@),
                                )) by {
                                    assert(r.deep_view()[0] == UsageV::Namespace(name@, alias@));
                                }
                            }
                            r
                        } else {
                            self.empty_usages()
                        }
                    },
                    _ => self.analyze_expr(obj),
                },
                MemberProp::PrivateName => self.analyze_expr(obj),
                MemberProp::Computed(ce) => merge_usages(
                    self.analyze_expr(obj),
                    self.analyze_expr(ce),
                ),
            },
            Expr::SuperProp => self.empty_usages(),
            Expr::Cond(t, c, a) => merge_usages(
                merge_usages(self.analyze_expr(t), self.analyze_expr(c)),
                self.analyze_expr(a),
            ),
            Expr::Call(callee, args) => merge_usages(
                self.analyze_exprs(args),
                match callee {
                    Callee::Super => self.empty_usages(),
                    Callee::Import => self.empty_usages(),
                    Callee::Expr(c) => self.analyze_expr(c),
                },
            ),
            Expr::New(callee, args) => merge_usages(
                self.analyze_expr(callee),
                match args {
                    Some(es) => self.analyze_exprs(es),
                    None => self.empty_usages(),
                },
            ),
            Expr::Comma(es) => self.analyze_exprs(es),
            Expr::Ident(_) => self.empty_usages(),
            Expr::Lit => self.empty_usages(),
            Expr::Tpl(es) => self.analyze_exprs(es),
            Expr::TaggedTpl(tag, es) => merge_usages(self.analyze_exprs(es), self.analyze_expr(tag)),
            Expr::Arrow(body) => match body {
                ArrowBody::Expr(e) => self.analyze_expr(e),
                ArrowBody::Block(ss) => self.analyze_block_stmt(ss),
            },
            Expr::ClassExpr(c) => self.analyze_class(c),
            Expr::Yield(o) => match o {
                Some(e) => self.analyze_expr(e),
                None => self.empty_usages(),
            },
            Expr::MetaProp => self.empty_usages(),
            Expr::Await(a) => self.analyze_expr(a),
            Expr::Paren(a) => self.analyze_expr(a),
            Expr::JsxElement(es) => self.analyze_exprs(es),
            Expr::JsxFragment(es) => self.analyze_exprs(es),
            Expr::TsTypeAssertion(a) => self.analyze_expr(a),
            Expr::TsConstAssertion(a) => self.analyze_expr(a),
            Expr::TsNonNull(a) => self.analyze_expr(a),
            Expr::TsAs(a) => self.analyze_expr(a),
            Expr::TsInstantiation(a) => self.analyze_expr(a),
            Expr::TsSatisfies(a) => self.analyze_expr(a),
            Expr::OptChain(e) => self.analyze_expr(e),
        }
    }

    fn analyze_class(&self, class: &Class) -> (r: Vec<Usage>)
        ensures
            distinct_seq(r@),
            r.deep_view().to_set() == usages_of_class(self.import_set(), *class),
        decreases *class,
    {
        self.analyze_members(&class.members)
    }

    fn analyze_members(&self, members: &Vec<ClassMember>) -> (r: Vec<Usage>)
        ensures
            distinct_seq(r@),
            r.deep_view().to_set() == usages_of_members(self.import_set(), members@),
        decreases members@,
    {
        let ghost im = self.import_set();
        let mut acc: Vec<Usage> = Vec::new();
        let n = members.len();
        let mut i: usize = 0;
        proof {
            assert(members@.skip(0) =~= members@);
            assert(acc.deep_view().to_set().union(usages_of_members(im, members@))
                =~= usages_of_members(im, members@));
        }
        while i < n
            invariant
                n == members@.len(),
                i <= n,
                im == self.import_set(),
                distinct_seq(acc@),
                acc.deep_view().to_set().union(usages_of_members(im, members@.skip(i as int)))
                    == usages_of_members(im, members@),
            decreases n - i,
        {
            let ghost prev = acc.deep_view().to_set();
            let u = match &members[i] {
                ClassMember::Constructor(b) => match b {
                    Some(ss) => self.analyze_block_stmt(ss),
                    None => self.empty_usages(),
                },
                ClassMember::Method(f) => self.analyze_function(f),
            };
            proof {
                assert(members@.skip(i as int)[0] == members@[i as int]);
                assert(members@.skip(i as int).drop_first() =~= members@.skip(i as int + 1));
                assert(u.deep_view().to_set() == (match members@[i as int] {
                    ClassMember::Constructor(b) => usages_of_opt_block(im, b),
                    ClassMember::Method(f) => usages_of_function(im, f),
                }));
            }
            vec_set_extend(&mut acc, u);
            proof {
                assert(acc.deep_view().to_set().union(
                    usages_of_members(im, members@.skip(i as int + 1)),
                ) =~= prev.union(usages_of_members(im, members@.skip(i as int))));
            }
            i += 1;
        }
        proof {
            assert(members@.skip(n as int) =~= Seq::<ClassMember>::empty());
            assert(acc.deep_view().to_set() =~= usages_of_members(im, members@));
        }
        acc
    }

    fn analyze_props(&self, props: &Vec<PropOrSpread>) -> (r: Vec<Usage>)
        ensures
            distinct_seq(r@),
            r.deep_view().to_set() == usages_of_props(self.import_set(), props@),
        decreases props@,
    {
        let ghost im = self.import_set();
        let mut acc: Vec<Usage> = Vec::new();
        let n = props.len();
        let mut i: usize = 0;
        proof {
            assert(props@.skip(0) =~= props@);
            assert(acc.deep_view().to_set().union(usages_of_props(im, props@))
                =~= usages_of_props(im, props@));
        }
        while i < n
            invariant
                n == props@.len(),
                i <= n,
                im == self.import_set(),
                distinct_seq(acc@),
                acc.deep_view().to_set().union(usages_of_props(im, props@.skip(i as int)))
                    == usages_of_props(im, props@),
            decreases n - i,
        {
            let ghost prev = acc.deep_view().to_set();
            let u = self.analyze_prop_or_spread(&props[i]);
            proof {
                assert(props@.skip(i as int)[0] == props@[i as int]);
                assert(props@.skip(i as int).drop_first() =~= props@.skip(i as int + 1));
            }
            vec_set_extend(&mut acc, u);
            proof {
                assert(acc.deep_view().to_set().union(usages_of_props(im, props@.skip(i as int + 1)))
                    =~= prev.union(usages_of_props(im, props@.skip(i as int))));
            }
            i += 1;
        }
        proof {
            assert(props@.skip(n as int) =~= Seq::<PropOrSpread>::empty());
            assert(acc.deep_view().to_set() =~= usages_of_props(im, props@));
        }
        acc
    }

    fn analyze_prop_or_spread(&self, prop: &PropOrSpread) -> (r: Vec<Usage>)
        ensures
            distinct_seq(r@),
            r.deep_view().to_set() == usages_of_prop(self.import_set(), *prop),
        decreases *prop,
    {
        match prop {
            PropOrSpread::Shorthand => self.empty_usages(),
            PropOrSpread::KeyValue(e) => self.analyze_expr(e),
            PropOrSpread::Assign(e) => self.analyze_expr(e),
            PropOrSpread::Getter(b) => match b {
                Some(ss) => self.analyze_block_stmt(ss),
                None => self.empty_usages(),
            },
            PropOrSpread::Setter(b) => match b {
                Some(ss) => self.analyze_block_stmt(ss),
                None => self.empty_usages(),
            },
            PropOrSpread::Method(f) => self.analyze_function(f),
            PropOrSpread::Spread(e) => self.analyze_expr(e),
        }
    }

    fn analyze_function(&self, fun: &Function) -> (r: Vec<Usage>)
        ensures
            distinct_seq(r@),
            r.deep_view().to_set() == usages_of_function(self.import_set(), *fun),
        decreases *fun,
    {
        match &fun.body {
            Some(ss) => self.analyze_block_stmt(ss),
            None => self.empty_usages(),
        }
    }

    fn analyze_var_decls(&self, decls: &Vec<VarDeclarator>) -> (r: Vec<Usage>)
        ensures
            distinct_seq(r@),
            r.deep_view().to_set() == usages_of_var_decls(self.import_set(), decls@),
        decreases decls@,
    {
        let ghost im = self.import_set();
        let mut acc: Vec<Usage> = Vec::new();
        let n = decls.len();
        let mut i: usize = 0;
        proof {
            assert(decls@.skip(0) =~= decls@);
            assert(acc.deep_view().to_set().union(usages_of_var_decls(im, decls@))
                =~= usages_of_var_decls(im, decls@));
        }
        while i < n
            invariant
                n == decls@.len(),
                i <= n,
                im == self.import_set(),
                distinct_seq(acc@),
                acc.deep_view().to_set().union(usages_of_var_decls(im, decls@.skip(i as int)))
                    == usages_of_var_decls(im, decls@),
            decreases n - i,
        {
            let ghost prev = acc.deep_view().to_set();
            let u = match &decls[i].init {
                Some(e) => self.analyze_expr(e),
                None => self.empty_usages(),
            };
            proof {
                assert(decls@.skip(i as int)[0] == decls@[i as int]);
                assert(decls@.skip(i as int).drop_first() =~= decls@.skip(i as int + 1));
            }
            vec_set_extend(&mut acc, u);
            proof {
                assert(acc.deep_view().to_set().union(
                    usages_of_var_decls(im, decls@.skip(i as int + 1)),
                ) =~= prev.union(usages_of_var_decls(im, decls@.skip(i as int))));
            }
            i += 1;
        }
        proof {
            assert(decls@.skip(n as int) =~= Seq::<VarDeclarator>::empty());
            assert(acc.deep_view().to_set() =~= usages_of_var_decls(im, decls@));
        }
        acc
    }

    fn analyze_decl(&self, decl: &Decl) -> (r: Vec<Usage>)
        ensures
            distinct_seq(r@),
            r.deep_view().to_set() == usages_of_decl(self.import_set(), *decl),
        decreases *decl,
    {
        match decl {
            Decl::Class(_, c) => self.analyze_class(c),
            Decl::Fn(_, f) => self.analyze_function(f),
            Decl::Var(ds) => self.analyze_var_decls(ds),
            Decl::TsEnum(_) => self.empty_usages(),
            Decl::TsInterface(_) => self.empty_usages(),
            Decl::TsTypeAlias(_) => self.empty_usages(),
            Decl::TsModule(_) => self.empty_usages(),
        }
    }
}

/// The union of two usage sets.
pub fn merge_usages(u1: Vec<Usage>, u2: Vec<Usage>) -> (r: Vec<Usage>)
    requires
        distinct_seq(u1@),
        distinct_seq(u2@),
    ensures
        distinct_seq(r@),
        r.deep_view().to_set() == u1.deep_view().to_set().union(u2.deep_view().to_set()),
{
    let mut r = u1;
    vec_set_extend(&mut r, u2);
    r
}

/// The set of usages held by a sequence of usage collections.
pub open spec fn merged_usage_seqs(us: Seq<Vec<Usage>>) -> Set<UsageV> {
    Set::new(
        |u: UsageV| exists|i: int| 0 <= i < us.len() && us[i].deep_view().to_set().contains(u),
    )
}

/// The union of any number of usage sets.
pub fn merge_usages_iter(usages: Vec<Vec<Usage>>) -> (r: Vec<Usage>)
    requires
        forall|i: int| 0 <= i < usages@.len() ==> distinct_seq(#[trigger] usages@[i]@),
    ensures
        distinct_seq(r@),
        r.deep_view().to_set() == merged_usage_seqs(usages@),
{
    let ghost all = usages@;
    let mut acc: Vec<Usage> = Vec::new();
    let mut rest = usages;
    let ghost mut taken: int = 0;
    proof {
        assert(acc.deep_view().to_set() =~= Set::<UsageV>::empty());
    }
    while rest.len() > 0
        invariant
            rest@ == all.skip(taken),
            0 <= taken <= all.len(),
            forall|i: int| 0 <= i < all.len() ==> distinct_seq(#[trigger] all[i]@),
            distinct_seq(acc@),
            acc.deep_view().to_set() == merged_usage_seqs(all.take(taken)),
        decreases rest.len(),
    {
        assert(rest@.len() == all.len() - taken);
        let other = rest.remove(0);
        assert(other == all[taken]);
        assert(rest@ =~= all.skip(taken + 1));
        let ghost prev = acc.deep_view().to_set();
        vec_set_extend(&mut acc, other);
        proof {
            assert(acc.deep_view().to_set() =~= merged_usage_seqs(all.take(taken + 1))) by {
                assert forall|u: UsageV| merged_usage_seqs(all.take(taken + 1)).contains(u)
                    implies acc.deep_view().to_set().contains(u) by {
                    let i = choose|i: int|
                        0 <= i < taken + 1 && #[trigger] all.take(
                            taken + 1,
                        )[i].deep_view().to_set().contains(u);
                    if i < taken {
                        assert(all.take(taken)[i].deep_view().to_set().contains(u));
                        assert(merged_usage_seqs(all.take(taken)).contains(u));
                    } else {
                        assert(all[taken].deep_view().to_set().contains(u));
                    }
                }
                assert forall|u: UsageV| acc.deep_view().to_set().contains(u)
                    implies merged_usage_seqs(all.take(taken + 1)).contains(u) by {
                    if prev.contains(u) {
                        let i = choose|i: int|
                            0 <= i < taken && #[trigger] all.take(
                                taken,
                            )[i].deep_view().to_set().contains(u);
                        assert(all.take(taken + 1)[i].deep_view().to_set().contains(u));
                    } else {
                        assert(all.take(taken + 1)[taken].deep_view().to_set().contains(u));
                    }
                }
            }
            taken = taken + 1;
        }
    }
    proof {
        assert(all.take(taken) =~= all);
    }
    acc
}

} // verus!

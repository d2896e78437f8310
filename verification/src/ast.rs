//! The module syntax tree the analysis walks.
//!
//! A module is an ordered sequence of top-level items, each either a plain
//! statement or a module declaration: an import, a named, default or
//! re-export-all export, or an exported declaration.  Statements and
//! expressions form a closed set of node kinds; the walk recurses into every
//! sub-expression it reads.  The front end that parses source text produces
//! values of these types.

use vstd::prelude::*;

use crate::module_symbols::Import;

verus! {

/// One parsed source module: its top-level items in order.
#[derive(Debug)]
pub struct Module {
    pub body: Vec<ModuleItem>,
}

/// A top-level item: a plain statement or a module declaration.
#[derive(Debug)]
pub enum ModuleItem {
    Stmt(Stmt),
    ModuleDecl(ModuleDecl),
}

/// A module declaration.
#[derive(Debug)]
pub enum ModuleDecl {
    /// `import ... from <from>`, with one entry per binding introduced.
    Import(ImportDecl),
    /// `export <decl>`.
    ExportDecl(Decl),
    /// `export { ... }`.
    ExportNamed(Vec<ExportSpecifier>),
    /// `export default <decl>`.
    ExportDefaultDecl(DefaultDecl),
    /// `export default <expr>`.
    ExportDefaultExpr(Box<Expr>),
    /// `export * from <specifier>`.
    ExportAll(String),
    /// An import-equals declaration; introduces nothing the analysis reads.
    ImportEquals,
}

/// One import statement: the raw specifier and the bindings it introduces.
#[derive(Debug)]
pub struct ImportDecl {
    pub from: String,
    pub specifiers: Vec<Import>,
}

/// One entry of a named export list: the original name and the optional
/// exported alias; the alias, where present, is the exported name.
#[derive(Debug)]
pub struct ExportSpecifier {
    pub orig: String,
    pub exported: Option<String>,
}

/// What a default export declares.
#[derive(Debug)]
pub enum DefaultDecl {
    Fn(Function),
    Class(Class),
}

/// A declaration.
#[derive(Debug)]
pub enum Decl {
    Class(String, Class),
    Fn(String, Function),
    Var(Vec<VarDeclarator>),
    TsEnum(String),
    TsInterface(String),
    TsTypeAlias(String),
    /// A namespace declaration: named, or bound to a string (which declares
    /// no symbol).
    TsModule(Option<String>),
}

/// One declarator of a variable declaration.
#[derive(Debug)]
pub struct VarDeclarator {
    pub name: String,
    pub init: Option<Expr>,
}

/// A function: its body, if it has one.
#[derive(Debug)]
pub struct Function {
    pub body: Option<Vec<Stmt>>,
}

/// A class body.
#[derive(Debug)]
pub struct Class {
    pub members: Vec<ClassMember>,
}

/// A class member the walk reads.
#[derive(Debug)]
pub enum ClassMember {
    Constructor(Option<Vec<Stmt>>),
    Method(Function),
}

/// One case of a switch statement.
#[derive(Debug)]
pub struct SwitchCase {
    pub test: Option<Expr>,
    pub cons: Vec<Stmt>,
}

/// A statement.
#[derive(Debug)]
pub enum Stmt {
    Block(Vec<Stmt>),
    Empty,
    Debugger,
    With(Box<Expr>, Box<Stmt>),
    Return(Option<Box<Expr>>),
    Labeled(Box<Stmt>),
    Break,
    Continue,
    If(Box<Expr>, Box<Stmt>, Option<Box<Stmt>>),
    Switch(Box<Expr>, Vec<SwitchCase>),
    Throw(Box<Expr>),
    /// `try { .. } catch { .. } finally { .. }`: block, handler, finalizer.
    Try(Vec<Stmt>, Option<Vec<Stmt>>, Option<Vec<Stmt>>),
    While(Box<Expr>, Box<Stmt>),
    DoWhile(Box<Expr>, Box<Stmt>),
    /// `for (..; test; update) body`; the walk reads test, update and body.
    For(Option<Box<Expr>>, Option<Box<Expr>>, Box<Stmt>),
    ForIn(Box<Expr>, Box<Stmt>),
    ForOf(Box<Expr>, Box<Stmt>),
    Decl(Decl),
    Expr(Box<Expr>),
}

/// An expression.
#[derive(Debug)]
pub enum Expr {
    This,
    Array(Vec<Option<Expr>>),
    Object(Vec<PropOrSpread>),
    Fn(Function),
    Unary(Box<Expr>),
    Update(Box<Expr>),
    Bin(Box<Expr>, Box<Expr>),
    /// An assignment; the walk reads the right-hand side.
    Assign(Box<Expr>),
    /// `obj.prop`, `obj[prop]` or `obj.#prop`.
    Member(Box<Expr>, MemberProp),
    SuperProp,
    Cond(Box<Expr>, Box<Expr>, Box<Expr>),
    Call(Callee, Vec<Expr>),
    New(Box<Expr>, Option<Vec<Expr>>),
    /// A comma sequence of expressions.
    Comma(Vec<Expr>),
    Ident(String),
    Lit,
    /// A template literal: its interpolated expressions.
    Tpl(Vec<Expr>),
    /// A tagged template: the tag and the interpolated expressions.
    TaggedTpl(Box<Expr>, Vec<Expr>),
    Arrow(ArrowBody),
    ClassExpr(Class),
    Yield(Option<Box<Expr>>),
    MetaProp,
    Await(Box<Expr>),
    Paren(Box<Expr>),
    /// A JSX element: the expressions embedded in its name, attributes and
    /// children.
    JsxElement(Vec<Expr>),
    /// A JSX fragment: the expressions embedded in its children.
    JsxFragment(Vec<Expr>),
    TsTypeAssertion(Box<Expr>),
    TsConstAssertion(Box<Expr>),
    TsNonNull(Box<Expr>),
    TsAs(Box<Expr>),
    TsInstantiation(Box<Expr>),
    TsSatisfies(Box<Expr>),
    /// An optional chain: the member or call expression it wraps.
    OptChain(Box<Expr>),
}

/// The property part of a member expression.
#[derive(Debug)]
pub enum MemberProp {
    Ident(String),
    PrivateName,
    Computed(Box<Expr>),
}

/// The callee of a call expression.
#[derive(Debug)]
pub enum Callee {
    Super,
    Import,
    Expr(Box<Expr>),
}

/// The body of an arrow function.
#[derive(Debug)]
pub enum ArrowBody {
    Expr(Box<Expr>),
    Block(Vec<Stmt>),
}

/// A property of an object literal, or a spread of another value.
#[derive(Debug)]
pub enum PropOrSpread {
    Shorthand,
    KeyValue(Box<Expr>),
    Assign(Box<Expr>),
    Getter(Option<Vec<Stmt>>),
    Setter(Option<Vec<Stmt>>),
    Method(Function),
    Spread(Box<Expr>),
}

} // verus!
